//! The state of the terminal dashboard: its container rows, the selection
//! and how keys move it, the tail of the selected logs, and its text.
use vstd::prelude::*;
use vstd::string::StringSliceAdditionalSpecFns;
use crate::text;
use crate::theme;

verus! {

/// Seconds between two refreshes of the container list.
pub const LIST_POLL_SECS: u64 = 2;

/// Milliseconds between two looks for a container whose logs to show.
pub const LOG_POLL_MS: u64 = 500;

/// The most log lines the dashboard keeps.
pub const MAX_LOG_LINES: usize = 200;

/// The request that lists every container.
pub const LIST_PATH: &'static str = "/containers/json?all=true";

/// One row of the container table.
#[derive(Clone, Debug, PartialEq, Eq)]
pub struct ContainerRow {
    pub id: String,
    pub name: String,
    pub image: String,
    pub status: String,
    pub created: i64,
}

/// `s` without any leading `c`.
pub open spec fn strip_leading(s: Seq<char>, c: char) -> Seq<char>
    decreases s.len(),
{
    if s.len() > 0 && s[0] == c {
        strip_leading(s.drop_first(), c)
    } else {
        s
    }
}

fn strip_leading_slashes(s: &str) -> (r: String)
    ensures
        r@ == strip_leading(s@, '/'),
{
    let cs = text::chars_of(s);
    let n = cs.len();
    let mut a: usize = 0;
    assert(cs@.subrange(0, n as int) =~= cs@);
    while a < n && cs[a] == '/'
        invariant
            a <= n == cs@.len(),
            strip_leading(cs@, '/') == strip_leading(cs@.subrange(a as int, n as int), '/'),
        decreases n - a,
    {
        assert(cs@.subrange(a as int, n as int).drop_first() =~= cs@.subrange(a + 1, n as int));
        a += 1;
    }
    assert(strip_leading(cs@.subrange(a as int, n as int), '/') == cs@.subrange(a as int, n as int))
        by {
        if a < n {
            assert(cs@.subrange(a as int, n as int)[0] == cs@[a as int]);
        }
    }
    text::string_from_chars(cs.as_slice(), a, n)
}

/// The row of a listed container: its id cut to 12 bytes, its first name
/// without leading slashes, its image and state; absent fields are empty
/// (or 0).
pub fn container_row(
    id: &str,
    first_name: Option<&str>,
    image: Option<&str>,
    state: Option<&str>,
    created: Option<i64>,
) -> (r: ContainerRow)
    requires
        id.spec_bytes().len() <= usize::MAX,
        id.spec_bytes().len() > 12 ==> vstd::utf8::is_char_boundary(id.spec_bytes(), 12),
    ensures
        r.id@ == theme::shown_id(id),
        r.name@ == match first_name {
            Some(n) => strip_leading(n@, '/'),
            None => Seq::empty(),
        },
        r.image@ == match image {
            Some(i) => i@,
            None => Seq::empty(),
        },
        r.status@ == match state {
            Some(s) => s@,
            None => Seq::empty(),
        },
        r.created == match created {
            Some(c) => c,
            None => 0,
        },
{
    ContainerRow {
        id: theme::short_id(id),
        name: match first_name {
            Some(n) => strip_leading_slashes(n),
            None => String::new(),
        },
        image: match image {
            Some(i) => text::string_of(i),
            None => String::new(),
        },
        status: match state {
            Some(s) => text::string_of(s),
            None => String::new(),
        },
        created: match created {
            Some(c) => c,
            None => 0,
        },
    }
}

/// The cells of a row, in the table's column order.
pub fn row_cells(row: &ContainerRow) -> (r: Vec<String>)
    ensures
        r@.len() == 4,
        r@[0] == row.id,
        r@[1] == row.name,
        r@[2] == row.image,
        r@[3] == row.status,
{
    let mut r: Vec<String> = Vec::new();
    r.push(row.id.clone());
    r.push(row.name.clone());
    r.push(row.image.clone());
    r.push(row.status.clone());
    r
}

/// The keys the dashboard reacts to.
#[derive(Clone, Copy, Debug, PartialEq, Eq, Structural)]
pub enum DashboardKey {
    Quit,
    Up,
    Down,
    Other,
}

/// The selection and whether to quit.
#[derive(Clone, Copy, Debug, PartialEq, Eq, Structural)]
pub struct Selection {
    pub selected: usize,
    pub should_quit: bool,
}

/// The selection after a key press, with `count` rows in the table: up
/// stops at the first row, down at the last, quit keys end the dashboard.
pub open spec fn after_key(s: Selection, key: DashboardKey, count: usize) -> Selection {
    match key {
        DashboardKey::Quit => Selection { selected: s.selected, should_quit: true },
        DashboardKey::Up => Selection {
            selected: if s.selected > 0 { (s.selected - 1) as usize } else { 0 },
            should_quit: s.should_quit,
        },
        DashboardKey::Down => Selection {
            selected: if s.selected + 1 < count { (s.selected + 1) as usize } else if count > 0 {
                (count - 1) as usize
            } else {
                0
            },
            should_quit: s.should_quit,
        },
        DashboardKey::Other => s,
    }
}

/// Applies a key press.
pub fn on_key(s: Selection, key: DashboardKey, count: usize) -> (r: Selection)
    ensures
        r == after_key(s, key, count),
{
    match key {
        DashboardKey::Quit => Selection { selected: s.selected, should_quit: true },
        DashboardKey::Up => Selection { selected: s.selected.saturating_sub(1), should_quit: s.should_quit },
        DashboardKey::Down => {
            let last = count.saturating_sub(1);
            let next = if s.selected < last { s.selected + 1 } else { last };
            Selection { selected: next, should_quit: s.should_quit }
        },
        DashboardKey::Other => s,
    }
}

/// The selection once the list holds `count` rows: moved onto the last row
/// when it pointed past it.
pub fn on_list(selected: usize, count: usize) -> (r: usize)
    ensures
        count > 0 && selected >= count ==> r == count - 1,
        !(count > 0 && selected >= count) ==> r == selected,
{
    if count > 0 && selected >= count {
        count - 1
    } else {
        selected
    }
}

/// Whether the logs of `current` are to be fetched: a container is listed
/// and it is not the one whose logs were fetched last.
pub fn should_fetch_logs(current: &str, last: &str) -> (r: bool)
    ensures
        r == (current@.len() > 0 && current@ != last@),
{
    text::chars_of(current).len() > 0 && !text::str_eq(current, last)
}

/// The request for the last 50 log lines of a container.
pub fn logs_path(id: &str) -> (r: String)
    ensures
        r@ == "/containers/"@ + id@ + "/logs?tail=50&stdout=true&stderr=true"@,
{
    text::concat3("/containers/", id, "/logs?tail=50&stdout=true&stderr=true")
}

/// The last `MAX_LOG_LINES` lines of a log text.
pub open spec fn log_tail(s: Seq<char>) -> Seq<Seq<char>> {
    let ls = text::lines_of(s);
    if ls.len() > MAX_LOG_LINES {
        ls.subrange(ls.len() - MAX_LOG_LINES, ls.len() as int)
    } else {
        ls
    }
}

/// The log lines the dashboard shows for a log text.
pub fn tail_lines(s: &str) -> (r: Vec<String>)
    ensures
        text::views_of(r@) == log_tail(s@),
{
    let ls = text::line_strings(s);
    let ghost lv = text::views_of(ls@);
    let n = ls.len();
    let start = if n > MAX_LOG_LINES {
        n - MAX_LOG_LINES
    } else {
        0
    };
    let mut r: Vec<String> = Vec::new();
    let mut i = start;
    while i < n
        invariant
            start <= i <= n == ls@.len(),
            lv == text::views_of(ls@),
            r@.len() == i - start,
            forall|j: int| 0 <= j < r@.len() ==> (#[trigger] r@[j])@ == lv[start + j],
        decreases n - i,
    {
        r.push(ls[i].clone());
        i += 1;
    }
    assert(text::views_of(r@) =~= log_tail(s@));
    r
}

/// The status line under the table.
pub fn status_bar_text(container_count: usize) -> (r: String)
    ensures
        r@ == " ↑↓ navigate  q quit  spk dashboard | "@ + text::decimal_text(container_count as nat)
            + " container(s)"@,
{
    let mut r = text::string_of(" ↑↓ navigate  q quit  spk dashboard | ");
    text::push_decimal(&mut r, container_count as u64);
    text::push_str(&mut r, " container(s)");
    r
}

} // verus!
