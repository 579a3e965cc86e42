use vstd::prelude::*;
use vstd::string::StringExecFns;
use crate::records::{CommitRecord, RecordView};
use crate::dates::{
    datetime_text,
    date_text,
    time_text,
    day_of,
    second_of_day,
    renderable,
    format_datetime,
    format_date,
    format_time,
    day_number,
    SECONDS_PER_DAY,
};
use crate::aggregate::sorted_by_date;
use crate::errors::ReportError;
use crate::strutil::str_eq;

verus! {

/// Every record's timestamp can be rendered as a calendar date and time.
pub open spec fn all_renderable(s: Seq<RecordView>) -> bool {
    forall|i: int| 0 <= i < s.len() ==> renderable(#[trigger] s[i].date)
}

/// One line of the flat layout: tab-separated date-time, repository, branch,
/// commit identifier, summary and author, ended by a newline.
pub open spec fn flat_line(r: RecordView) -> Seq<char> {
    datetime_text(r.date) + "\t"@ + r.repo + "\t"@ + r.branch + "\t"@ + r.commit + "\t"@
        + r.summary + "\t"@ + r.author + "\n"@
}

/// The flat layout: one line per record, in the order given.
pub open spec fn flat_output(s: Seq<RecordView>) -> Seq<char>
    decreases s.len(),
{
    if s.len() == 0 {
        Seq::empty()
    } else {
        flat_output(s.drop_last()) + flat_line(s.last())
    }
}

/// A date header line of the daily layout.
pub open spec fn daily_header(day: int) -> Seq<char> {
    date_text(day) + "\n"@
}

/// One detail line of the daily layout: indented, tab-separated time of day,
/// repository, branch, summary and author (no commit identifier).
pub open spec fn daily_entry(r: RecordView) -> Seq<char> {
    "\t\t"@ + time_text(second_of_day(r.date)) + "\t"@ + r.repo + "\t"@ + r.branch + "\t"@
        + r.summary + "\t"@ + r.author + "\n"@
}

/// The daily layout: a single linear pass over the already-sorted records,
/// emitting a date header exactly where a record's calendar day differs from
/// its predecessor's (or at the first record), then the record's detail line.
pub open spec fn daily_output(s: Seq<RecordView>) -> Seq<char>
    decreases s.len(),
{
    if s.len() == 0 {
        Seq::empty()
    } else {
        daily_output(s.drop_last()) + (if s.len() == 1 || day_of(s[s.len() - 2].date) != day_of(
            s.last().date,
        ) {
            daily_header(day_of(s.last().date))
        } else {
            Seq::empty()
        }) + daily_entry(s.last())
    }
}

/// In a timestamp-sorted collection, records of one calendar day are
/// contiguous: any record between two records of the same day falls on that
/// day itself. The daily layout may therefore group by a single linear pass.
pub proof fn lemma_sorted_days_contiguous(s: Seq<RecordView>, i: int, j: int, k: int)
    requires
        sorted_by_date(s),
        0 <= i <= j <= k < s.len(),
        day_of(s[i].date) == day_of(s[k].date),
    ensures
        day_of(s[j].date) == day_of(s[i].date),
{
    vstd::arithmetic::div_mod::lemma_div_is_ordered(
        s[i].date as int,
        s[j].date as int,
        SECONDS_PER_DAY as int,
    );
    vstd::arithmetic::div_mod::lemma_div_is_ordered(
        s[j].date as int,
        s[k].date as int,
        SECONDS_PER_DAY as int,
    );
}

/// Renders the flat layout.
pub fn render_flat(records: &Vec<CommitRecord>) -> (out: String)
    requires
        all_renderable(records.deep_view()),
    ensures
        out@ == flat_output(records.deep_view()),
{
    let ghost dv: Seq<RecordView> = records.deep_view();
    let mut out = String::new();
    let mut i: usize = 0;
    while i < records.len()
        invariant
            all_renderable(dv),
            dv == records.deep_view(),
            dv.len() == records@.len(),
            i <= records@.len(),
            out@ == flat_output(dv.take(i as int)),
        decreases records@.len() - i,
    {
        let r = &records[i];
        proof {
            assert(r.deep_view() == dv[i as int]);
            assert(renderable(dv[i as int].date));
            assert(renderable(r.date));
        }
        out.append(format_datetime(r.date).as_str());
        out.append("\t");
        out.append(r.repo.as_str());
        out.append("\t");
        out.append(r.branch.as_str());
        out.append("\t");
        out.append(r.commit.as_str());
        out.append("\t");
        out.append(r.summary.as_str());
        out.append("\t");
        out.append(r.author.as_str());
        out.append("\n");
        proof {
            let t = dv.take(i + 1);
            assert(t.drop_last() =~= dv.take(i as int));
            assert(t.last() == dv[i as int]);
            assert(out@ =~= flat_output(dv.take(i + 1)));
        }
        i += 1;
    }
    proof {
        assert(dv.take(dv.len() as int) =~= dv);
    }
    out
}

/// Renders the daily layout by one linear pass over the records.
pub fn render_daily(records: &Vec<CommitRecord>) -> (out: String)
    requires
        all_renderable(records.deep_view()),
    ensures
        out@ == daily_output(records.deep_view()),
{
    let ghost dv: Seq<RecordView> = records.deep_view();
    let mut out = String::new();
    let mut i: usize = 0;
    while i < records.len()
        invariant
            all_renderable(dv),
            dv == records.deep_view(),
            dv.len() == records@.len(),
            i <= records@.len(),
            out@ == daily_output(dv.take(i as int)),
        decreases records@.len() - i,
    {
        let r = &records[i];
        proof {
            assert(r.deep_view() == dv[i as int]);
            assert(renderable(dv[i as int].date));
            assert(renderable(r.date));
        }
        let new_day = if i == 0 {
            true
        } else {
            let prev = records[i - 1].date;
            proof {
                assert(records[i - 1].deep_view() == dv[i - 1]);
            }
            day_number(prev) != day_number(r.date)
        };
        if new_day {
            out.append(format_date(r.date).as_str());
            out.append("\n");
        }
        out.append("\t\t");
        out.append(format_time(r.date).as_str());
        out.append("\t");
        out.append(r.repo.as_str());
        out.append("\t");
        out.append(r.branch.as_str());
        out.append("\t");
        out.append(r.summary.as_str());
        out.append("\t");
        out.append(r.author.as_str());
        out.append("\n");
        proof {
            let t = dv.take(i + 1);
            assert(t.drop_last() =~= dv.take(i as int));
            assert(t.last() == dv[i as int]);
            assert(out@ =~= daily_output(dv.take(i + 1)));
        }
        i += 1;
    }
    proof {
        assert(dv.take(dv.len() as int) =~= dv);
    }
    out
}

/// Renders the records in the requested mode: `flat` or `daily`. Any other
/// mode fails with `UnknownFormatError` carrying the invalid string, and no
/// output is produced.
pub fn render(records: &Vec<CommitRecord>, mode: &str) -> (r: Result<String, ReportError>)
    requires
        all_renderable(records.deep_view()),
    ensures
        mode@ == "flat"@ ==> (r matches Ok(out) && out@ == flat_output(records.deep_view())),
        mode@ == "daily"@ ==> (r matches Ok(out) && out@ == daily_output(records.deep_view())),
        mode@ != "flat"@ && mode@ != "daily"@ ==> (r matches Err(e) && e matches
            ReportError::UnknownFormat(m) && m@ == mode@),
{
    proof {
        reveal_strlit("flat");
        reveal_strlit("daily");
        assert("flat"@.len() == 4);
        assert("daily"@.len() == 5);
        assert("flat"@ != "daily"@);
    }
    if str_eq(mode, "flat") {
        Ok(render_flat(records))
    } else if str_eq(mode, "daily") {
        Ok(render_daily(records))
    } else {
        Err(ReportError::UnknownFormat(mode.to_owned()))
    }
}

} // verus!
