//! Fixed-width table rendering: a header, a dashed separator, and one row
//! per entry in display order.

use crate::clock::now_millis;
use crate::sessions::SessionEntry;
use crate::sessions::sort_entries;
use crate::sessions::sorted_for_display;
use crate::time::is_active;
use crate::time::is_active_spec;
use crate::time::format_relative_time;
use crate::time::relative_time_spec;
use vstd::prelude::*;
use vstd::string::StrSliceExecFns;

verus! {

/// `n` copies of `c` (none when `n` is not positive).
pub open spec fn repeat_char(c: char, n: int) -> Seq<char>
    decreases n,
{
    if n <= 0 {
        Seq::empty()
    } else {
        repeat_char(c, n - 1).push(c)
    }
}

/// `s` left-aligned in a field of `w` characters; `s` is kept whole when
/// it is already at least that wide.
pub open spec fn pad_to(s: Seq<char>, w: int) -> Seq<char> {
    s + repeat_char(' ', w - s.len())
}

/// The literal status column text.
pub open spec fn status_text(active: bool) -> Seq<char> {
    if active {
        "active"@
    } else {
        "stopped"@
    }
}

/// The SESSION column width: the longest identifier, but never narrower
/// than the `SESSION` heading itself (7 characters).
pub open spec fn col_width(s: Seq<SessionEntry>) -> int
    decreases s.len(),
{
    if s.len() == 0 {
        7
    } else {
        let rest = col_width(s.drop_last());
        let last = s.last().id@.len() as int;
        if last > rest {
            last
        } else {
            rest
        }
    }
}

/// The header row for a SESSION column of width `w`.
pub open spec fn header_line(w: int) -> Seq<char> {
    pad_to("SESSION"@, w) + "  "@ + pad_to("STATUS"@, 8) + "  "@ + "LAST ACTIVE"@
}

/// The dashed separator under the header: the full computed table width.
pub open spec fn separator_line(w: int) -> Seq<char> {
    repeat_char('-', w + 32)
}

/// One data row at `now_ms`, for a SESSION column of width `w`.
pub open spec fn row_line(e: SessionEntry, w: int, now_ms: int) -> Seq<char> {
    pad_to(e.id@, w) + "  "@ + pad_to(status_text(is_active_spec(e.updated_at as int, now_ms)), 8)
        + "  "@ + relative_time_spec(e.updated_at as int, now_ms)
}

/// The whole table for entries shown in the order given.
pub open spec fn table_lines(s: Seq<SessionEntry>, now_ms: int) -> Seq<Seq<char>> {
    seq![header_line(col_width(s)), separator_line(col_width(s))] + s.map_values(
        |e: SessionEntry| row_line(e, col_width(s), now_ms),
    )
}

/// `lines` is the table for some display-ordered arrangement of `entries`.
pub open spec fn rendered_table(
    entries: Seq<SessionEntry>,
    now_ms: int,
    lines: Seq<Seq<char>>,
) -> bool {
    exists|s: Seq<SessionEntry>|
        s.to_multiset() == entries.to_multiset() && sorted_for_display(s, now_ms) && lines
            == table_lines(s, now_ms)
}

fn spaces_str(n: usize) -> (s: String)
    ensures
        s@ == repeat_char(' ', n as int),
{
    let mut s = String::new();
    let mut i: usize = 0;
    while i < n
        invariant
            i <= n,
            s@ == repeat_char(' ', i as int),
        decreases n - i,
    {
        s.append(" ");
        proof {
            reveal_strlit(" ");
            assert(s@ =~= repeat_char(' ', i as int + 1));
        }
        i += 1;
    }
    s
}

fn dashes_str(n: usize) -> (s: String)
    ensures
        s@ == repeat_char('-', n as int),
{
    let mut s = String::new();
    let mut i: usize = 0;
    while i < n
        invariant
            i <= n,
            s@ == repeat_char('-', i as int),
        decreases n - i,
    {
        s.append("-");
        proof {
            reveal_strlit("-");
            assert(s@ =~= repeat_char('-', i as int + 1));
        }
        i += 1;
    }
    s
}

fn pad_right(s: &str, w: usize) -> (r: String)
    ensures
        r@ == pad_to(s@, w as int),
{
    let len = s.unicode_len();
    let mut r = s.to_owned();
    if len < w {
        let pad = spaces_str(w - len);
        r.append(pad.as_str());
    }
    assert(r@ =~= pad_to(s@, w as int));
    r
}

/// The SESSION column width for these entries.
pub fn session_col_width(entries: &Vec<SessionEntry>) -> (w: usize)
    ensures
        w as int == col_width(entries@),
{
    let mut w: usize = 7;
    let mut i: usize = 0;
    while i < entries.len()
        invariant
            i <= entries@.len(),
            w as int == col_width(entries@.take(i as int)),
        decreases entries@.len() - i,
    {
        let ent = &entries[i];
        let len = ent.id.as_str().unicode_len();
        if len > w {
            w = len;
        }
        proof {
            assert(entries@.take(i as int + 1).drop_last() =~= entries@.take(i as int));
            assert(entries@.take(i as int + 1).last() == entries@[i as int]);
        }
        i += 1;
    }
    proof {
        assert(entries@.take(entries@.len() as int) =~= entries@);
    }
    w
}

/// Render the table rows in the order the entries are given.
pub fn render_table(entries: &Vec<SessionEntry>, now_ms: i64) -> (lines: Vec<String>)
    requires
        col_width(entries@) + 32 <= usize::MAX,
    ensures
        lines.deep_view() == table_lines(entries@, now_ms as int),
{
    let ghost row_of = |e: SessionEntry| row_line(e, col_width(entries@), now_ms as int);
    let w = session_col_width(entries);
    let mut lines: Vec<String> = Vec::new();
    let mut header = pad_right("SESSION", w);
    header.append("  ");
    let status_heading = pad_right("STATUS", 8);
    header.append(status_heading.as_str());
    header.append("  ");
    header.append("LAST ACTIVE");
    assert(header@ == header_line(w as int));
    lines.push(header);
    let separator = dashes_str(w + 32);
    lines.push(separator);
    assert(lines.deep_view() =~= seq![header_line(w as int), separator_line(w as int)]
        + entries@.take(0).map_values(row_of));
    let mut i: usize = 0;
    while i < entries.len()
        invariant
            i <= entries@.len(),
            w as int == col_width(entries@),
            w + 32 <= usize::MAX,
            row_of == (|e: SessionEntry| row_line(e, col_width(entries@), now_ms as int)),
            lines.deep_view() == seq![header_line(w as int), separator_line(w as int)]
                + entries@.take(i as int).map_values(row_of),
        decreases entries@.len() - i,
    {
        let ent = &entries[i];
        let mut row = pad_right(ent.id.as_str(), w);
        row.append("  ");
        let status = if is_active(ent.updated_at, now_ms) {
            "active"
        } else {
            "stopped"
        };
        let status_padded = pad_right(status, 8);
        row.append(status_padded.as_str());
        row.append("  ");
        let age = format_relative_time(ent.updated_at, now_ms);
        row.append(age.as_str());
        assert(row@ == row_line(entries@[i as int], w as int, now_ms as int));
        let ghost dv0 = lines.deep_view();
        lines.push(row);
        proof {
            assert(lines.deep_view() =~= dv0.push(row@));
            assert(entries@.take(i as int + 1) =~= entries@.take(i as int).push(
                entries@[i as int],
            ));
            assert(entries@.take(i as int + 1).map_values(row_of) =~= entries@.take(
                i as int,
            ).map_values(row_of).push(row_of(entries@[i as int])));
            assert(row@ == row_of(entries@[i as int]));
            assert(lines.deep_view() =~= seq![header_line(w as int), separator_line(w as int)]
                + entries@.take(i as int + 1).map_values(row_of));
        }
        i += 1;
    }
    proof {
        assert(entries@.take(entries@.len() as int) =~= entries@);
        assert(lines.deep_view() =~= table_lines(entries@, now_ms as int));
    }
    lines
}

/// The SESSION column is exactly as wide as the longest identifier, and
/// never narrower than the heading: it fits every identifier, and unless
/// it is the heading's own width it is attained by some identifier.
pub proof fn lemma_col_width_is_max(s: Seq<SessionEntry>)
    ensures
        col_width(s) >= 7,
        forall|i: int| 0 <= i < s.len() ==> s[i].id@.len() <= col_width(s),
        col_width(s) == 7 || exists|i: int| 0 <= i < s.len() && s[i].id@.len() == col_width(s),
    decreases s.len(),
{
    if s.len() > 0 {
        let rest = s.drop_last();
        lemma_col_width_is_max(rest);
        assert(s.last() == s[s.len() - 1]);
        assert forall|i: int| 0 <= i < s.len() implies s[i].id@.len() <= col_width(s) by {
            if i < s.len() - 1 {
                assert(s[i] == rest[i]);
                assert(rest[i].id@.len() <= col_width(rest));
            }
        }
        if col_width(s) != 7 {
            if s.last().id@.len() as int > col_width(rest) {
                assert(s[s.len() - 1].id@.len() == col_width(s));
            } else {
                assert(col_width(s) == col_width(rest));
                let j = choose|j: int| 0 <= j < rest.len() && rest[j].id@.len() == col_width(rest);
                assert(s[j] == rest[j]);
                assert(s[j].id@.len() == col_width(s));
            }
        }
    }
}

proof fn lemma_col_width_bound(s: Seq<SessionEntry>, bound: int)
    requires
        7 <= bound,
        forall|i: int| 0 <= i < s.len() ==> s[i].id@.len() <= bound,
    ensures
        col_width(s) <= bound,
    decreases s.len(),
{
    if s.len() > 0 {
        lemma_col_width_bound(s.drop_last(), bound);
        assert(s.last() == s[s.len() - 1]);
    }
}

/// Sort the entries into display order and render the table.
pub fn render_sessions(entries: Vec<SessionEntry>, now_ms: i64) -> (lines: Vec<String>)
    requires
        forall|i: int| 0 <= i < entries@.len() ==> entries@[i].id@.len() + 32 <= usize::MAX,
    ensures
        rendered_table(entries@, now_ms as int, lines.deep_view()),
{
    let ghost entries0 = entries@;
    let sorted = sort_entries(entries, now_ms);
    proof {
        broadcast use vstd::seq_lib::group_to_multiset_ensures;

        assert forall|i: int| 0 <= i < sorted@.len() implies sorted@[i].id@.len() + 32
            <= usize::MAX by {
            assert(sorted@.contains(sorted@[i]));
            assert(sorted@.to_multiset().count(sorted@[i]) > 0);
            assert(entries0.to_multiset().count(sorted@[i]) > 0);
            assert(entries0.contains(sorted@[i]));
            let j = choose|j: int| 0 <= j < entries0.len() && entries0[j] == sorted@[i];
            assert(entries0[j].id@.len() + 32 <= usize::MAX);
        }
        lemma_col_width_bound(sorted@, usize::MAX - 32);
    }
    let lines = render_table(&sorted, now_ms);
    proof {
        assert(sorted@.to_multiset() == entries0.to_multiset() && sorted_for_display(
            sorted@,
            now_ms as int,
        ) && lines.deep_view() == table_lines(sorted@, now_ms as int));
    }
    lines
}

/// Read the clock once and render the table for that moment.
pub fn sessions_table(entries: Vec<SessionEntry>) -> (lines: Vec<String>)
    requires
        forall|i: int| 0 <= i < entries@.len() ==> entries@[i].id@.len() + 32 <= usize::MAX,
    ensures
        exists|now_ms: int| rendered_table(entries@, now_ms, lines.deep_view()),
{
    let now_ms = now_millis();
    let lines = render_sessions(entries, now_ms);
    lines
}

} // verus!
