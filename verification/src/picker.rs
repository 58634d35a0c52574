//! The plugin picker: what the program offers when it is started bare.
//!
//! Every plugin of every found file is a row. The user picks one by number or
//! narrows the list by typing text, line by line.

use crate::loader::Loader;
use crate::report::c_string;
use crate::text::{
    append_number, chars_of, contains, joined_texts, lowercase, next_word, parse_number, quoted,
    same_text, trim,
};
use vstd::prelude::*;

verus! {

/// One plugin row, a single plugin inside a plugin file. Files with several
/// plugins produce several rows, so a number always selects exactly one plugin
/// and no second prompt is needed.
pub struct Entry {
    pub path: String,
    pub name: String,
    pub id: String,
}

/// What a filter is looked for in.
pub open spec fn haystack(name: Seq<char>, id: Seq<char>, path: Seq<char>) -> Seq<char> {
    crate::text::lowercased(name + "\n"@ + id + "\n"@ + path)
}

/// Every word of the filter occurs somewhere, whatever the case.
pub open spec fn matches_filter(
    name: Seq<char>,
    id: Seq<char>,
    path: Seq<char>,
    filter: Seq<char>,
) -> bool {
    forall|i: int, j: int| #[trigger]
        crate::text::is_word(filter, i, j) ==> crate::text::occurs(
            crate::text::lowercased(filter.subrange(i, j)),
            haystack(name, id, path),
        )
}

/// Case-insensitive substring match over name + id + path; the filter's
/// whitespace-separated words must all match somewhere (word-AND).
pub fn entry_matches(name: &str, id: &str, path: &str, filter: &str) -> (r: bool)
    ensures
        r == matches_filter(name@, id@, path@, filter@),
{
    let mut text = name.to_owned();
    text.append("\n");
    text.append(id);
    text.append("\n");
    text.append(path);
    let hay = lowercase(text.as_str());
    let chars = chars_of(filter);
    let mut from: usize = 0;
    while from < chars.len()
        invariant
            chars@ == filter@,
            from <= chars.len(),
            hay@ == haystack(name@, id@, path@),
            0 < from < chars.len() ==> crate::text::white_space(chars@[from as int])
                || crate::text::white_space(chars@[from - 1]),
            forall|i: int, j: int|
                i < from && #[trigger] crate::text::is_word(filter@, i, j)
                    ==> crate::text::occurs(
                    crate::text::lowercased(filter@.subrange(i, j)),
                    hay@,
                ),
        decreases chars.len() - from,
    {
        match next_word(&chars, from) {
            None => {
                assert forall|i: int, j: int| #[trigger]
                    crate::text::is_word(filter@, i, j) implies crate::text::occurs(
                    crate::text::lowercased(filter@.subrange(i, j)),
                    hay@,
                ) by {
                    if i >= from {
                        assert(!crate::text::is_word(chars@, i, j));
                    }
                }
                return true;
            },
            Some((i, j)) => {
                let word = filter.substring_char(i, j);
                if !contains(hay.as_str(), lowercase(word).as_str()) {
                    assert(crate::text::is_word(filter@, i as int, j as int));
                    return false;
                }
                assert forall|a: int, b: int|
                    a < j && #[trigger] crate::text::is_word(filter@, a, b) implies
                    crate::text::occurs(
                    crate::text::lowercased(filter@.subrange(a, b)),
                    hay@,
                ) by {
                    if a >= from {
                        assert(a == i && b == j);
                    }
                }
                from = j;
            },
        }
    }
    assert forall|i: int, j: int| #[trigger]
        crate::text::is_word(filter@, i, j) implies crate::text::occurs(
        crate::text::lowercased(filter@.subrange(i, j)),
        hay@,
    ) by {}
    true
}

/// Law: the empty filter, and any filter of white space alone, matches every
/// row.
pub proof fn empty_filters_match_all(
    name: Seq<char>,
    id: Seq<char>,
    path: Seq<char>,
    filter: Seq<char>,
)
    requires
        forall|k: int| 0 <= k < filter.len() ==> crate::text::white_space(#[trigger] filter[k]),
    ensures
        matches_filter(name, id, path, filter),
{
    assert forall|i: int, j: int| #[trigger]
        crate::text::is_word(filter, i, j) implies crate::text::occurs(
        crate::text::lowercased(filter.subrange(i, j)),
        haystack(name, id, path),
    ) by {
        assert(!crate::text::white_space(filter[i]));
    }
}

/// The words of two texts with white space between them are the words of both.
proof fn words_of_two(a: Seq<char>, c: char, b: Seq<char>)
    requires
        crate::text::white_space(c),
    ensures
        forall|i: int, j: int|
            #[trigger] crate::text::is_word(a, i, j) ==> crate::text::is_word(
                a + seq![c] + b,
                i,
                j,
            ) && (a + seq![c] + b).subrange(i, j) == a.subrange(i, j),
        forall|i: int, j: int| #[trigger]
            crate::text::is_word(b, i, j) ==> {
                let at = a.len() + 1;
                &&& crate::text::is_word(a + seq![c] + b, i + at, j + at)
                &&& (a + seq![c] + b).subrange(i + at, j + at) == b.subrange(i, j)
            },
        forall|i: int, j: int| #[trigger]
            crate::text::is_word(a + seq![c] + b, i, j) ==> {
                let at = a.len() + 1;
                crate::text::is_word(a, i, j) || crate::text::is_word(b, i - at, j - at)
            },
{
    let s = a + seq![c] + b;
    let at = a.len() + 1;
    assert(s[a.len() as int] == c);
    assert forall|i: int, j: int| #[trigger] crate::text::is_word(a, i, j) implies
        crate::text::is_word(s, i, j) && s.subrange(i, j) == a.subrange(i, j) by {
        assert forall|k: int| i <= k < j implies !crate::text::white_space(#[trigger] s[k]) by {
            assert(s[k] == a[k]);
        }
        assert(s.subrange(i, j) =~= a.subrange(i, j));
    }
    assert forall|i: int, j: int| #[trigger] crate::text::is_word(b, i, j) implies
        crate::text::is_word(s, i + at, j + at) && s.subrange(i + at, j + at) == b.subrange(
        i,
        j,
    ) by {
        assert forall|k: int| i + at <= k < j + at implies !crate::text::white_space(
            #[trigger] s[k],
        ) by {
            assert(s[k] == b[k - at]);
        }
        assert(s.subrange(i + at, j + at) =~= b.subrange(i, j));
    }
    assert forall|i: int, j: int| #[trigger] crate::text::is_word(s, i, j) implies
        crate::text::is_word(a, i, j) || crate::text::is_word(b, i - at, j - at) by {
        if i <= a.len() < j {
            assert(!crate::text::white_space(s[a.len() as int]));
        }
        if j <= a.len() {
            assert forall|k: int| i <= k < j implies !crate::text::white_space(
                #[trigger] a[k],
            ) by {
                assert(a[k] == s[k]);
            }
        } else {
            assert forall|k: int| i - at <= k < j - at implies !crate::text::white_space(
                #[trigger] b[k],
            ) by {
                assert(b[k] == s[k + at]);
            }
        }
    }
}

/// Law: two filters with white space between them match exactly the rows that
/// both match. So the order of the words does not matter, a word that is there
/// twice counts once, and another word never brings a row back.
pub proof fn filters_match_word_by_word(
    name: Seq<char>,
    id: Seq<char>,
    path: Seq<char>,
    first: Seq<char>,
    space: char,
    second: Seq<char>,
)
    requires
        crate::text::white_space(space),
    ensures
        matches_filter(name, id, path, first + seq![space] + second) == (matches_filter(
            name,
            id,
            path,
            first,
        ) && matches_filter(name, id, path, second)),
        matches_filter(name, id, path, first + seq![space] + second) == matches_filter(
            name,
            id,
            path,
            second + seq![space] + first,
        ),
        matches_filter(name, id, path, first + seq![space] + first) == matches_filter(
            name,
            id,
            path,
            first,
        ),
{
    joined_filter(name, id, path, first, space, second);
    joined_filter(name, id, path, second, space, first);
    joined_filter(name, id, path, first, space, first);
}

/// Law: so it is with a plain space between the filters, and a filter of plain
/// spaces alone matches every row.
pub proof fn filters_are_joined_by_spaces(
    name: Seq<char>,
    id: Seq<char>,
    path: Seq<char>,
    first: Seq<char>,
    second: Seq<char>,
    spaces: nat,
)
    ensures
        matches_filter(name, id, path, first + " "@ + second) == (matches_filter(
            name,
            id,
            path,
            first,
        ) && matches_filter(name, id, path, second)),
        matches_filter(name, id, path, first + " "@ + second) == matches_filter(
            name,
            id,
            path,
            second + " "@ + first,
        ),
        matches_filter(name, id, path, first + " "@ + first) == matches_filter(
            name,
            id,
            path,
            first,
        ),
        matches_filter(name, id, path, Seq::new(spaces, |i: int| ' ')),
{
    reveal_strlit(" ");
    assert(" "@ =~= seq![' ']);
    filters_match_word_by_word(name, id, path, first, ' ', second);
    empty_filters_match_all(name, id, path, Seq::new(spaces, |i: int| ' '));
}

proof fn joined_filter(
    name: Seq<char>,
    id: Seq<char>,
    path: Seq<char>,
    a: Seq<char>,
    c: char,
    b: Seq<char>,
)
    requires
        crate::text::white_space(c),
    ensures
        matches_filter(name, id, path, a + seq![c] + b) == (matches_filter(name, id, path, a)
            && matches_filter(name, id, path, b)),
{
    let s = a + seq![c] + b;
    let at = a.len() + 1;
    let hay = haystack(name, id, path);
    words_of_two(a, c, b);
    if matches_filter(name, id, path, s) {
        assert forall|i: int, j: int| #[trigger] crate::text::is_word(a, i, j) implies
            crate::text::occurs(crate::text::lowercased(a.subrange(i, j)), hay) by {
            assert(crate::text::is_word(s, i, j));
        }
        assert forall|i: int, j: int| #[trigger] crate::text::is_word(b, i, j) implies
            crate::text::occurs(crate::text::lowercased(b.subrange(i, j)), hay) by {
            assert(crate::text::is_word(s, i + at, j + at));
        }
    }
    if matches_filter(name, id, path, a) && matches_filter(name, id, path, b) {
        assert forall|i: int, j: int| #[trigger] crate::text::is_word(s, i, j) implies
            crate::text::occurs(crate::text::lowercased(s.subrange(i, j)), hay) by {
            if !crate::text::is_word(a, i, j) {
                assert(crate::text::is_word(b, i - at, j - at));
                assert(s.subrange(i - at + at, j - at + at) == b.subrange(i - at, j - at));
            }
        }
    }
}

/// Whether a row passes the filter.
pub open spec fn passes(entry: Entry, filter: Seq<char>) -> bool {
    matches_filter(entry.name@, entry.id@, entry.path@, filter)
}

/// The places of the rows that pass the filter, in order.
pub open spec fn visible_rows(entries: Seq<Entry>, filter: Seq<char>) -> Seq<usize>
    decreases entries.len(),
{
    if entries.len() == 0 {
        Seq::empty()
    } else {
        let before = visible_rows(entries.drop_last(), filter);
        if passes(entries.last(), filter) {
            before.push((entries.len() - 1) as usize)
        } else {
            before
        }
    }
}

/// The rows that pass the filter, by their places.
pub fn visible(entries: &Vec<Entry>, filter: &str) -> (rows: Vec<usize>)
    ensures
        rows@ == visible_rows(entries@, filter@),
        forall|k: int| 0 <= k < rows@.len() ==> #[trigger] rows@[k] < entries@.len(),
{
    let mut rows: Vec<usize> = Vec::new();
    let mut i: usize = 0;
    assert(visible_rows(entries@.take(0), filter@) =~= Seq::empty());
    while i < entries.len()
        invariant
            i <= entries.len(),
            rows@ == visible_rows(entries@.take(i as int), filter@),
            forall|k: int| 0 <= k < rows@.len() ==> #[trigger] rows@[k] < i,
        decreases entries.len() - i,
    {
        assert(entries@.take(i + 1).drop_last() =~= entries@.take(i as int));
        let e = &entries[i];
        if entry_matches(e.name.as_str(), e.id.as_str(), e.path.as_str(), filter) {
            rows.push(i);
        }
        i = i + 1;
    }
    assert(entries@.take(entries@.len() as int) =~= entries@);
    rows
}

/// Law: the visible rows are exactly those that pass the filter, each once and
/// in order.
pub proof fn visible_rows_pass(entries: Seq<Entry>, filter: Seq<char>)
    requires
        entries.len() <= usize::MAX,
    ensures
        ({
            let rows = visible_rows(entries, filter);
            &&& forall|k: int|
                0 <= k < rows.len() ==> (#[trigger] rows[k]) < entries.len() && passes(
                    entries[rows[k] as int],
                    filter,
                )
            &&& forall|a: int, b: int|
                0 <= a < b < rows.len() ==> #[trigger] rows[a] < #[trigger] rows[b]
            &&& forall|i: int|
                0 <= i < entries.len() && passes(#[trigger] entries[i], filter) ==> rows.contains(
                    i as usize,
                )
        }),
    decreases entries.len(),
{
    if entries.len() > 0 {
        let rest = entries.drop_last();
        visible_rows_pass(rest, filter);
        let before = visible_rows(rest, filter);
        let rows = visible_rows(entries, filter);
        let last = (entries.len() - 1) as usize;
        assert forall|k: int| 0 <= k < rows.len() implies (#[trigger] rows[k]) < entries.len()
            && passes(entries[rows[k] as int], filter) by {
            if k < before.len() {
                assert(rows[k] == before[k]);
                assert(rest[before[k] as int] == entries[before[k] as int]);
            }
        }
        assert forall|a: int, b: int| 0 <= a < b < rows.len() implies #[trigger] rows[a]
            < #[trigger] rows[b] by {
            assert(rows[a] == before[a]);
            if b < before.len() {
                assert(rows[b] == before[b]);
            }
        }
        assert forall|i: int|
            0 <= i < entries.len() && passes(#[trigger] entries[i], filter) implies rows.contains(
            i as usize,
        ) by {
            if i < rest.len() {
                assert(rest[i] == entries[i]);
                let k = choose|k: int| 0 <= k < before.len() && before[k] == i as usize;
                assert(rows[k] == i as usize);
            } else {
                assert(rows[rows.len() - 1] == last);
            }
        }
    }
}

/// What the picker does after a line of input.
pub enum Pick {
    /// Nothing is picked.
    Quit,
    /// The row at this place is picked.
    Row(usize),
    /// The list is shown again with this filter.
    Filter(String),
}

/// What a line means: nothing or `q` quits, the number of a visible row selects
/// it, anything else narrows the list. No line at all, because the input ended,
/// quits.
pub open spec fn answer(rows: Seq<usize>, line: Option<Seq<char>>) -> PickText {
    match line {
        None => PickText::Quit,
        Some(l) => {
            let input = crate::text::trimmed(l);
            let number = crate::text::number_value(input);
            if input.len() == 0 || input == "q"@ || input == "Q"@ {
                PickText::Quit
            } else if number is Some && number->0 < rows.len() {
                PickText::Row(rows[number->0 as int])
            } else {
                PickText::Filter(crate::text::lowercased(input))
            }
        },
    }
}

/// What the picker does, as texts.
pub enum PickText {
    Quit,
    Row(usize),
    Filter(Seq<char>),
}

impl View for Pick {
    type V = PickText;

    open spec fn view(&self) -> PickText {
        match *self {
            Pick::Quit => PickText::Quit,
            Pick::Row(i) => PickText::Row(i),
            Pick::Filter(text) => PickText::Filter(text@),
        }
    }
}

/// One turn of the pick loop: `rows` are the visible rows, `line` what the user
/// typed.
pub fn pick(rows: &Vec<usize>, line: Option<&str>) -> (r: Pick)
    ensures
        r@ == answer(rows@, crate::text::opt_text(line)),
{
    let line = match line {
        None => return Pick::Quit,
        Some(line) => line,
    };
    let input = trim(line);
    if input.is_empty() || same_text(input, "q") || same_text(input, "Q") {
        return Pick::Quit;
    }
    let count: usize = rows.len();
    if let Some(n) = parse_number(input, u64::MAX) {
        if n < count as u64 {
            return Pick::Row(rows[n as usize]);
        }
    }
    Pick::Filter(lowercase(input))
}

/// Law: a line that holds the number of a visible row and nothing else picks
/// that row, and a line that holds a number of no visible row never picks one.
pub proof fn numbers_pick_their_row(rows: Seq<usize>, line: Seq<char>, n: nat)
    requires
        crate::text::trimmed(line) == crate::text::decimal(n),
    ensures
        n < rows.len() ==> answer(rows, Some(line)) == PickText::Row(rows[n as int]),
        n >= rows.len() ==> answer(rows, Some(line)) == PickText::Filter(
            crate::text::lowercased(crate::text::decimal(n)),
        ),
{
    let input = crate::text::decimal(n);
    crate::text::written_numbers_are_read_back(n);
    reveal_strlit("q");
    reveal_strlit("Q");
    assert(crate::text::number_value("q"@) is None) by {
        assert(crate::text::digit("q"@.last()) is None);
    }
    assert(crate::text::number_value("Q"@) is None) by {
        assert(crate::text::digit("Q"@.last()) is None);
    }
    assert(crate::text::number_value(Seq::<char>::empty()) is None);
    if input.len() == 0 {
        assert(input =~= Seq::<char>::empty());
    }
}

/// How a row is shown.
pub fn row_text(i: usize, entry: &Entry) -> (line: String)
    ensures
        line@ == "["@ + crate::text::decimal(i as nat) + "] "@ + entry.name@ + "  id="@ + entry.id@
            + "  ("@ + entry.path@ + ")"@,
{
    let mut line = "[".to_owned();
    append_number(&mut line, i as u64);
    line.append("] ");
    line.append(entry.name.as_str());
    line.append("  id=");
    line.append(entry.id.as_str());
    line.append("  (");
    line.append(entry.path.as_str());
    line.append(")");
    line
}

/// What is shown where no row passes the filter.
pub fn no_match_text(filter: &str) -> (line: String)
    ensures
        line@ == "(no match for "@ + crate::text::quoted_text(filter@)
            + " — type new text to re-filter)"@,
{
    let mut line = joined_texts("(no match for ", quoted(filter).as_str());
    line.append(" — type new text to re-filter)");
    line
}

/// A row for a plugin of the file at `path`.
pub open spec fn is_row(entry: Entry, path: Seq<char>, d: crate::loader::Descriptor) -> bool {
    &&& entry.path@ == path
    &&& entry.name@ == crate::text::opt_c_text(crate::report::c_bytes(d.name))
    &&& entry.id@ == crate::text::opt_c_text(crate::report::c_bytes(d.id))
    &&& crate::text::keeps_opt_text(crate::report::c_bytes(d.name), entry.name@)
    &&& crate::text::keeps_opt_text(crate::report::c_bytes(d.id), entry.id@)
}

/// The descriptors that a file has, in order.
pub open spec fn described(plugins: Seq<Option<crate::loader::Descriptor>>) -> Seq<
    crate::loader::Descriptor,
>
    decreases plugins.len(),
{
    if plugins.len() == 0 {
        Seq::empty()
    } else {
        let before = described(plugins.drop_last());
        match plugins.last() {
            Some(d) => before.push(d),
            None => before,
        }
    }
}

/// The rows of one found file. `path` is its path, where that is UTF-8, and
/// `opened` what became of opening it. Broken files give no rows but a warning:
/// a picker must not die on one bad plugin.
pub fn collect_entries(path: Option<&str>, display: &str, opened: Result<&Loader, String>) -> (r:
    Result<Vec<Entry>, String>)
    requires
        opened is Ok ==> opened->Ok_0.wf(),
    ensures
        r is Ok <==> path is Some && opened is Ok,
        path is None ==> r->Err_0@ == "warn: "@ + display@ + ": not valid UTF-8, skipped"@,
        path is Some && opened is Err ==> r->Err_0@ == "warn: "@ + display@ + ": "@
            + opened->Err_0@,
        r is Ok ==> {
            let list = described(opened->Ok_0@);
            &&& r->Ok_0@.len() == list.len()
            &&& forall|i: int| 0 <= i < list.len() ==> is_row(#[trigger] r->Ok_0@[i], path->0@, list[i])
        },
{
    let path = match path {
        None => {
            let mut text = joined_texts("warn: ", display);
            text.append(": not valid UTF-8, skipped");
            return Err(text);
        },
        Some(path) => path,
    };
    let loader = match opened {
        Err(e) => {
            let mut text = joined_texts("warn: ", display);
            text.append(": ");
            text.append(e.as_str());
            return Err(text);
        },
        Ok(loader) => loader,
    };
    let n: u32 = loader.plugin_count();
    let mut out: Vec<Entry> = Vec::new();
    let mut i: u32 = 0;
    assert(described(loader@.take(0)) =~= Seq::empty());
    while i < n
        invariant
            loader.wf(),
            n == loader@.len(),
            i <= n,
            out@.len() == described(loader@.take(i as int)).len(),
            forall|k: int|
                0 <= k < out@.len() ==> is_row(
                    #[trigger] out@[k],
                    path@,
                    described(loader@.take(i as int))[k],
                ),
        decreases n - i,
    {
        assert(loader@.take(i + 1).drop_last() =~= loader@.take(i as int));
        assert(loader@.take(i + 1).last() == loader@[i as int]);
        if let Some(d) = loader.descriptor(i) {
            out.push(
                Entry { path: path.to_owned(), name: c_string(&d.name), id: c_string(&d.id) },
            );
        }
        i = i + 1;
    }
    assert(loader@.take(n as int) =~= loader@);
    Ok(out)
}

/// Law: a filter of one word matches exactly the rows whose name, id or path
/// holds the word, whatever the case: they are looked through as one text, line
/// by line.
pub proof fn words_are_looked_for(
    name: Seq<char>,
    id: Seq<char>,
    path: Seq<char>,
    word: Seq<char>,
)
    requires
        word.len() > 0,
        forall|k: int| 0 <= k < word.len() ==> !crate::text::white_space(#[trigger] word[k]),
    ensures
        matches_filter(name, id, path, word) <==> crate::text::occurs(
            crate::text::lowercased(word),
            crate::text::lowercased(name + "\n"@ + id + "\n"@ + path),
        ),
{
    let n = word.len() as int;
    assert(crate::text::is_word(word, 0, n));
    assert(word.subrange(0, n) =~= word);
    assert forall|i: int, j: int| #[trigger] crate::text::is_word(word, i, j) implies i == 0 && j
        == n by {
        if i > 0 {
            assert(crate::text::white_space(word[i - 1]));
        }
        if j < n {
            assert(crate::text::white_space(word[j]));
        }
    }
}

/// Law: a row is looked through by its own name, id and path.
pub proof fn rows_pass_by_their_texts(entry: Entry, filter: Seq<char>)
    ensures
        passes(entry, filter) == matches_filter(entry.name@, entry.id@, entry.path@, filter),
{
}

/// Law: the picker ends exactly where the input does, at a blank line and at
/// `q`; every other line picks a visible row or narrows the list by what was
/// typed, in lower case and without the blanks around it.
pub proof fn lines_pick_or_narrow(rows: Seq<usize>, line: Seq<char>)
    ensures
        answer(rows, None) is Quit,
        answer(rows, Some(line)) is Quit <==> crate::text::trimmed(line).len() == 0
            || crate::text::trimmed(line) == "q"@ || crate::text::trimmed(line) == "Q"@,
        answer(rows, Some(line)) is Row ==> rows.contains(answer(rows, Some(line))->Row_0)
            && crate::text::number_value(crate::text::trimmed(line)) is Some,
        answer(rows, Some(line)) is Filter ==> answer(rows, Some(line))->Filter_0
            == crate::text::lowercased(crate::text::trimmed(line)),
{
    if answer(rows, Some(line)) is Row {
        let n = crate::text::number_value(crate::text::trimmed(line))->0 as int;
        assert(rows[n] == answer(rows, Some(line))->Row_0);
    }
}

/// Law: a file gives one row for each plugin that it describes, in its order.
pub proof fn every_plugin_has_a_row(plugins: Seq<Option<crate::loader::Descriptor>>)
    ensures
        described(plugins) == plugins.filter_map(|d: Option<crate::loader::Descriptor>| d),
    decreases plugins.len(),
{
    let own = |d: Option<crate::loader::Descriptor>| d;
    if plugins.len() > 0 {
        every_plugin_has_a_row(plugins.drop_last());
    }
    assert(described(plugins) =~= plugins.filter_map(own));
}

/// Law: a row names the file, and its plugin as the plugin names itself.
pub proof fn rows_name_their_plugin(entry: Entry, path: Seq<char>, d: crate::loader::Descriptor)
    requires
        is_row(entry, path, d),
    ensures
        entry.path@ == path,
        d.name is Some ==> entry.name@ == crate::text::c_text(d.name->0@),
        d.name is None ==> entry.name@.len() == 0,
        d.id is Some ==> entry.id@ == crate::text::c_text(d.id->0@),
        d.id is None ==> entry.id@.len() == 0,
{
}

} // verus!
