//! Where a loaded library lies in this process: the rows of `/proc/self/maps`,
//! the words of its data, and the checks that a table found there is the one it
//! should be.

use std::ops::Range;

use vstd::prelude::*;

use crate::text::{
    chars_of, lemma_until, lines, lines_of, next_at, number, number_of, part, same, string_of,
    until, views, white, white_space_parts_words, words, words_of,
};

verus! {

/// Whether an address lies in a range.
pub open spec fn within(r: Range<usize>, addr: int) -> bool {
    r.start <= addr < r.end
}

/// How many whole words a range holds.
pub open spec fn words_in(r: Range<usize>) -> int {
    (r.end - r.start) / 4
}

/// How many whole words some ranges hold together.
pub open spec fn words_of_all(data: Seq<Range<usize>>) -> int
    decreases data.len(),
{
    if data.len() == 0 {
        0
    } else {
        words_of_all(data.drop_last()) + words_in(data.last())
    }
}

/// Where a word lies that is counted through the ranges in order.
pub open spec fn address_in(data: Seq<Range<usize>>, index: int) -> Option<int>
    decreases data.len(),
{
    if data.len() == 0 {
        None
    } else if index < words_in(data[0]) {
        Some(data[0].start + index * 4)
    } else {
        address_in(data.drop_first(), index - words_in(data[0]))
    }
}

/// No range ends before it starts.
pub open spec fn ordered(data: Seq<Range<usize>>) -> bool {
    forall|i: int| 0 <= i < data.len() ==> (#[trigger] data[i]).start <= data[i].end
}

proof fn lemma_words_step(data: Seq<Range<usize>>, k: int)
    requires
        0 <= k < data.len(),
    ensures
        words_of_all(data.take(k + 1)) == words_of_all(data.take(k)) + words_in(data[k]),
{
    assert(data.take(k + 1).drop_last() =~= data.take(k));
}

proof fn lemma_words_grow(data: Seq<Range<usize>>, k: int)
    requires
        0 <= k <= data.len(),
        ordered(data),
    ensures
        0 <= words_of_all(data.take(k)) <= words_of_all(data),
    decreases data.len() - k, k,
{
    if k == data.len() {
        assert(data.take(k) =~= data);
        lemma_words_positive(data);
    } else {
        lemma_words_step(data, k);
        lemma_words_grow(data, k + 1);
        lemma_words_positive(data.take(k));
    }
}

proof fn lemma_words_positive(data: Seq<Range<usize>>)
    requires
        ordered(data),
    ensures
        words_of_all(data) >= 0,
    decreases data.len(),
{
    if data.len() > 0 {
        assert(words_in(data.last()) >= 0);
        lemma_words_positive(data.drop_last());
    }
}

/// The words that are counted are the words that have an address, and each lies
/// whole inside one of the ranges.
pub proof fn every_counted_word_has_a_place(data: Seq<Range<usize>>, index: int)
    requires
        ordered(data),
        0 <= index,
    ensures
        address_in(data, index) is Some <==> index < words_of_all(data),
        address_in(data, index) matches Some(at) ==> exists|i: int|
            0 <= i < data.len() && (#[trigger] data[i]).start <= at && at + 4 <= data[i].end,
    decreases data.len(),
{
    if data.len() > 0 {
        lemma_words_split(data);
        if index < words_in(data[0]) {
            lemma_words_positive(data.drop_first());
            assert(data[0].start + index * 4 + 4 <= data[0].end);
        } else {
            every_counted_word_has_a_place(data.drop_first(), index - words_in(data[0]));
            if let Some(at) = address_in(data, index) {
                let i = choose|i: int|
                    0 <= i < data.drop_first().len() && (#[trigger] data.drop_first()[i]).start <= at
                        && at + 4 <= data.drop_first()[i].end;
                assert(data[i + 1] == data.drop_first()[i]);
            }
        }
    }
}

proof fn lemma_words_split(data: Seq<Range<usize>>)
    requires
        data.len() > 0,
    ensures
        words_of_all(data) == words_in(data[0]) + words_of_all(data.drop_first()),
    decreases data.len(),
{
    if data.len() == 1 {
        assert(data.drop_last() =~= seq![]);
        assert(data.drop_first() =~= seq![]);
    } else {
        lemma_words_split(data.drop_last());
        assert(data.drop_last().drop_first() =~= data.drop_first().drop_last());
        assert(data.drop_first().last() == data.last());
    }
}

/// A library as it lies in memory: its file, where it begins, its code and its
/// writable data.
#[derive(Debug)]
pub struct Mapping {
    pub path: String,
    pub base: usize,
    pub code: Vec<Range<usize>>,
    pub data: Vec<Range<usize>>,
}

impl Mapping {
    /// No data range ends before it starts, and the words can be counted.
    pub open spec fn wf(&self) -> bool {
        ordered(self.data@) && words_of_all(self.data@) <= usize::MAX
    }

    pub fn holds_code(&self, addr: usize) -> (r: bool)
        ensures
            r == exists|i: int| 0 <= i < self.code.len() && within(#[trigger] self.code[i], addr as int),
    {
        let mut i: usize = 0;
        while i < self.code.len()
            invariant
                i <= self.code.len(),
                forall|k: int| 0 <= k < i ==> !within(#[trigger] self.code[k], addr as int),
            decreases self.code.len() - i,
        {
            if self.code[i].start <= addr && addr < self.code[i].end {
                assert(within(self.code[i as int], addr as int));
                return true;
            }
            i = i + 1;
        }
        false
    }

    /// How many whole words the data range at `addr` still holds from there on;
    /// none where no range holds `addr`.
    pub fn words_from(&self, addr: usize) -> (r: usize)
        ensures
            (forall|i: int| 0 <= i < self.data.len() ==> !within(#[trigger] self.data[i], addr as int))
                ==> r == 0,
            forall|i: int|
                0 <= i < self.data.len() && within(#[trigger] self.data[i], addr as int) && (forall|k: int|
                    0 <= k < i ==> !within(#[trigger] self.data[k], addr as int)) ==> r == (
                self.data[i].end - addr) / 4,
    {
        let mut i: usize = 0;
        while i < self.data.len()
            invariant
                i <= self.data.len(),
                forall|k: int| 0 <= k < i ==> !within(#[trigger] self.data[k], addr as int),
            decreases self.data.len() - i,
        {
            if self.data[i].start <= addr && addr < self.data[i].end {
                assert(within(self.data[i as int], addr as int));
                return (self.data[i].end - addr) / 4;
            }
            i = i + 1;
        }
        0
    }

    /// How many whole words of data there are.
    pub fn words(&self) -> (r: usize)
        requires
            self.wf(),
        ensures
            r == words_of_all(self.data@),
    {
        let mut total: usize = 0;
        let mut i: usize = 0;
        while i < self.data.len()
            invariant
                self.wf(),
                i <= self.data.len(),
                total == words_of_all(self.data@.take(i as int)),
            decreases self.data.len() - i,
        {
            proof {
                lemma_words_step(self.data@, i as int);
                lemma_words_grow(self.data@, i + 1);
                assert(self.data@[i as int].start <= self.data@[i as int].end);
            }
            total = total + (self.data[i].end - self.data[i].start) / 4;
            i = i + 1;
        }
        assert(self.data@.take(i as int) =~= self.data@);
        total
    }

    /// Where a word of the data lies, counted through the ranges in order.
    pub fn address(&self, index: usize) -> (r: Option<usize>)
        requires
            ordered(self.data@),
        ensures
            match r {
                Some(at) => address_in(self.data@, index as int) == Some(at as int),
                None => address_in(self.data@, index as int) is None,
            },
    {
        let mut left: usize = index;
        let mut i: usize = 0;
        assert(self.data@.skip(0) =~= self.data@);
        while i < self.data.len()
            invariant
                ordered(self.data@),
                i <= self.data.len(),
                address_in(self.data@, index as int) == address_in(
                    self.data@.skip(i as int),
                    left as int,
                ),
            decreases self.data.len() - i,
        {
            let ghost rest = self.data@.skip(i as int);
            assert(rest[0] == self.data@[i as int]);
            assert(self.data@[i as int].start <= self.data@[i as int].end);
            let words: usize = (self.data[i].end - self.data[i].start) / 4;
            if left < words {
                return Some(self.data[i].start + left * 4);
            }
            left = left - words;
            assert(rest.drop_first() =~= self.data@.skip(i + 1));
            i = i + 1;
        }
        None
    }

    /// Whether two words that are counted one after the other also lie so.
    pub open spec fn next_to(&self, index: int) -> bool {
        match (address_in(self.data@, index), address_in(self.data@, index + 1)) {
            (Some(a), Some(b)) => b == a + 4,
            _ => false,
        }
    }

    pub fn adjacent(&self, index: usize) -> (r: bool)
        requires
            ordered(self.data@),
            index < usize::MAX,
        ensures
            r == self.next_to(index as int),
    {
        match (self.address(index), self.address(index + 1)) {
            (Some(a), Some(b)) => b >= 4 && b - 4 == a,
            _ => false,
        }
    }

    /// The addresses of the words that hold a value, of the words read in order.
    pub open spec fn marked_in(&self, words: Seq<u32>, value: u32) -> Seq<int>
        decreases words.len(),
    {
        if words.len() == 0 {
            seq![]
        } else {
            let before = self.marked_in(words.drop_last(), value);
            let at = address_in(self.data@, words.len() - 1);
            if words.last() == value && at is Some {
                before.push(at->0)
            } else {
                before
            }
        }
    }

    pub fn marked(&self, words: &Vec<u32>, value: u32) -> (r: Vec<usize>)
        requires
            ordered(self.data@),
        ensures
            r@.map_values(|at: usize| at as int) == self.marked_in(words@, value),
    {
        let mut out: Vec<usize> = Vec::new();
        let mut i: usize = 0;
        assert(out@.map_values(|at: usize| at as int) =~= seq![]);
        while i < words.len()
            invariant
                ordered(self.data@),
                i <= words.len(),
                out@.map_values(|at: usize| at as int) == self.marked_in(words@.take(i as int), value),
            decreases words.len() - i,
        {
            let ghost before = out@;
            assert(words@.take(i + 1).drop_last() =~= words@.take(i as int));
            if words[i] == value {
                if let Some(at) = self.address(i) {
                    out.push(at);
                    assert(out@.map_values(|at: usize| at as int) =~= before.map_values(
                        |at: usize| at as int,
                    ).push(at as int));
                }
            }
            i = i + 1;
        }
        assert(words@.take(i as int) =~= words@);
        out
    }

    /// How far into the file's mapping an address lies.
    pub fn offset_of(&self, addr: usize) -> (r: usize)
        ensures
            r == (if addr >= self.base {
                addr - self.base
            } else {
                0
            }),
    {
        if addr >= self.base {
            addr - self.base
        } else {
            0
        }
    }
}

// ---------------------------------------------------------------------------
// The rows of the map
// ---------------------------------------------------------------------------

/// One row: what it spans, whether it may run or be written, and its file.
#[derive(Debug)]
pub struct Row {
    pub range: Range<usize>,
    pub runs: bool,
    pub write: bool,
    pub path: String,
}

/// A row's parts as plain values.
pub type Parts = (Range<usize>, bool, bool, Seq<char>);

impl View for Row {
    type V = Parts;

    open spec fn view(&self) -> Parts {
        (self.range, self.runs, self.write, self.path@)
    }
}

/// Words with a space between each two.
pub open spec fn joined(list: Seq<Seq<char>>) -> Seq<char>
    decreases list.len(),
{
    if list.len() == 0 {
        seq![]
    } else if list.len() == 1 {
        list[0]
    } else {
        joined(list.drop_last()) + seq![' '] + list.last()
    }
}

/// A row of the map: `from-to perms offset device inode path`, the path being
/// every word past the fifth. Nothing where the span or the permissions are not
/// there to be read.
pub open spec fn row_of(line: Seq<char>) -> Option<Parts> {
    let f = words(line);
    if f.len() < 2 || until(f[0], '-') >= f[0].len() {
        None
    } else {
        let k = until(f[0], '-') as int;
        match (
            number(f[0].take(k), 16, usize::MAX as int),
            number(f[0].skip(k + 1), 16, usize::MAX as int),
        ) {
            (Some(from), Some(to)) => Some(
                (
                    Range { start: from as usize, end: to as usize },
                    f[1].contains('x'),
                    f[1].contains('w'),
                    if f.len() > 5 {
                        joined(f.skip(5))
                    } else {
                        seq![]
                    },
                ),
            ),
            _ => None,
        }
    }
}

fn has(v: &Vec<char>, c: char) -> (r: bool)
    ensures
        r == v@.contains(c),
{
    let at: usize = next_at(v, 0, c);
    proof {
        crate::text::lemma_until_is(v@, c);
        assert(v@.skip(0) =~= v@);
        if at < v.len() {
            assert(v@[at as int] == c);
        }
    }
    at < v.len()
}

/// The words from the sixth on, with a space between each two.
fn path_in(fields: &Vec<Vec<char>>) -> (r: String)
    ensures
        r@ == (if fields.len() > 5 {
            joined(views(fields@).skip(5))
        } else {
            seq![]
        }),
{
    let mut out: Vec<char> = Vec::new();
    let mut i: usize = 5;
    let ghost tail = views(fields@).skip(5);
    assert(fields.len() > 5 ==> joined(tail.take(0)) =~= seq![]);
    while i < fields.len()
        invariant
            5 <= i,
            i <= fields.len() || i == 5,
            tail == views(fields@).skip(5),
            i <= fields.len() ==> out@ == joined(tail.take(i - 5)),
            i > fields.len() ==> out@ == Seq::<char>::empty(),
        decreases fields.len() - i,
    {
        let ghost before = out@;
        if i > 5 {
            out.push(' ');
        }
        let ghost spaced = out@;
        let word = &fields[i];
        let mut k: usize = 0;
        while k < word.len()
            invariant
                k <= word.len(),
                out@ == spaced + word@.take(k as int),
            decreases word.len() - k,
        {
            out.push(word[k]);
            assert(out@ =~= spaced + word@.take(k + 1));
            k = k + 1;
        }
        proof {
            let done = tail.take(i + 1 - 5);
            assert(word@.take(k as int) =~= word@);
            assert(done.last() == word@);
            assert(done.drop_last() =~= tail.take(i - 5));
            if i == 5 {
                assert(out@ =~= word@);
            } else {
                assert(out@ =~= before + seq![' '] + word@);
            }
        }
        i = i + 1;
    }
    assert(fields.len() > 5 ==> tail.take(i - 5) =~= tail);
    string_of(&out)
}

/// A row of the map, where the line is one.
pub fn row(line: &str) -> (r: Option<Row>)
    ensures
        match r {
            Some(row) => row_of(line@) == Some(row@),
            None => row_of(line@) is None,
        },
{
    let line = chars_of(line);
    row_in(&line)
}

fn row_in(line: &Vec<char>) -> (r: Option<Row>)
    ensures
        match r {
            Some(row) => row_of(line@) == Some(row@),
            None => row_of(line@) is None,
        },
{
    let fields = words_of(line);
    assert(views(fields@) == words(line@));
    if fields.len() < 2 {
        return None;
    }
    assert(views(fields@)[0] == fields@[0]@);
    assert(views(fields@)[1] == fields@[1]@);
    let span = &fields[0];
    assert(span@.skip(0) =~= span@);
    let k: usize = next_at(span, 0, '-');
    if k >= span.len() {
        return None;
    }
    let first = part(span, 0, k);
    let second = part(span, k + 1, span.len());
    assert(first@ =~= span@.take(k as int));
    assert(second@ =~= span@.skip(k + 1));
    let start: Option<u64> = number_of(&first, 16, usize::MAX as u64);
    let end: Option<u64> = number_of(&second, 16, usize::MAX as u64);
    match (start, end) {
        (Some(start), Some(end)) => Some(
            Row {
                range: Range { start: start as usize, end: end as usize },
                runs: has(&fields[1], 'x'),
                write: has(&fields[1], 'w'),
                path: path_in(&fields),
            },
        ),
        _ => None,
    }
}

/// The rows among some lines.
pub open spec fn rows_of(list: Seq<Seq<char>>) -> Seq<Parts>
    decreases list.len(),
{
    if list.len() == 0 {
        seq![]
    } else {
        match row_of(list.last()) {
            Some(row) => rows_of(list.drop_last()).push(row),
            None => rows_of(list.drop_last()),
        }
    }
}

/// The first row, from `from` on, that spans an address.
pub open spec fn row_at(rows: Seq<Parts>, addr: int, from: int) -> Option<int>
    decreases rows.len() - from,
{
    if from < 0 || from >= rows.len() {
        None
    } else if within(rows[from].0, addr) {
        Some(from)
    } else {
        row_at(rows, addr, from + 1)
    }
}

/// Where the lowest row of a file starts.
pub open spec fn base_of(rows: Seq<Parts>, path: Seq<char>) -> Option<usize>
    decreases rows.len(),
{
    if rows.len() == 0 {
        None
    } else {
        let before = base_of(rows.drop_last(), path);
        if rows.last().3 != path {
            before
        } else {
            match before {
                Some(low) => if rows.last().0.start < low {
                    Some(rows.last().0.start)
                } else {
                    before
                },
                None => Some(rows.last().0.start),
            }
        }
    }
}

/// What a file's rows that may run span.
pub open spec fn code_of(rows: Seq<Parts>, path: Seq<char>) -> Seq<Range<usize>>
    decreases rows.len(),
{
    if rows.len() == 0 {
        seq![]
    } else {
        let before = code_of(rows.drop_last(), path);
        if rows.last().3 == path && rows.last().1 {
            before.push(rows.last().0)
        } else {
            before
        }
    }
}

/// What a file's writable rows span, each with the unnamed rows that continue
/// it: what the loader cleared for the file lies there.
pub open spec fn data_of(rows: Seq<Parts>, path: Seq<char>) -> Seq<Range<usize>>
    decreases rows.len(),
{
    if rows.len() == 0 {
        seq![]
    } else {
        let before = data_of(rows.drop_last(), path);
        let (range, _, write, at) = rows.last();
        if !write {
            before
        } else if at == path {
            before.push(range)
        } else if at.len() == 0 && before.len() > 0 && before.last().end == range.start {
            before.update(
                before.len() - 1,
                Range { start: before.last().start, end: range.end },
            )
        } else {
            before
        }
    }
}

/// The file whose mapping holds an address, where a file does.
pub open spec fn path_at(rows: Seq<Parts>, addr: int) -> Option<Seq<char>> {
    match row_at(rows, addr, 0) {
        Some(at) => if rows[at].3.len() > 0 {
            Some(rows[at].3)
        } else {
            None
        },
        None => None,
    }
}

/// The parts of a list of rows.
pub open spec fn parts_of(rows: Seq<Row>) -> Seq<Parts> {
    rows.map_values(|r: Row| r@)
}

fn read_rows(maps: &str) -> (r: Vec<Row>)
    ensures
        parts_of(r@) == rows_of(lines(maps@)),
{
    let text = chars_of(maps);
    let list = lines_of(&text);
    let mut rows: Vec<Row> = Vec::new();
    let mut i: usize = 0;
    assert(parts_of(rows@) =~= seq![]);
    while i < list.len()
        invariant
            i <= list.len(),
            parts_of(rows@) == rows_of(views(list@).take(i as int)),
        decreases list.len() - i,
    {
        let ghost before = rows@;
        let ghost done = views(list@).take(i + 1);
        assert(done.drop_last() =~= views(list@).take(i as int));
        assert(done.last() == list@[i as int]@);
        if let Some(row) = row_in(&list[i]) {
            rows.push(row);
            assert(parts_of(rows@) =~= parts_of(before).push(row@));
        }
        i = i + 1;
    }
    assert(views(list@).take(i as int) =~= views(list@));
    rows
}

proof fn lemma_prefix(rows: Seq<Row>, i: int)
    requires
        0 <= i < rows.len(),
    ensures
        parts_of(rows).take(i + 1).drop_last() == parts_of(rows).take(i),
        parts_of(rows).take(i + 1).last() == rows[i]@,
{
    assert(parts_of(rows).take(i + 1).drop_last() =~= parts_of(rows).take(i));
}

/// A row of the file that was found has the file's lowest start at or below its
/// own.
proof fn lemma_base(rows: Seq<Parts>, path: Seq<char>, i: int)
    requires
        0 <= i < rows.len(),
        rows[i].3 == path,
    ensures
        base_of(rows, path) is Some,
    decreases rows.len(),
{
    if i < rows.len() - 1 {
        lemma_base(rows.drop_last(), path, i);
    }
}

/// The mapping of the file that an address lies in. Nothing where the address is
/// in no row, or in one with no file.
pub fn locate(maps: &str, addr: usize) -> (r: Option<Mapping>)
    ensures
        ({
            let rows = rows_of(lines(maps@));
            match (r, path_at(rows, addr as int)) {
                (Some(m), Some(path)) => {
                    &&& m.path@ == path
                    &&& base_of(rows, path) == Some(m.base)
                    &&& m.code@ == code_of(rows, path)
                    &&& m.data@ == data_of(rows, path)
                },
                (None, None) => true,
                _ => false,
            }
        }),
{
    let rows = read_rows(maps);
    let ghost all = parts_of(rows@);
    let mut at: usize = 0;
    while at < rows.len() && !(rows[at].range.start <= addr && addr < rows[at].range.end)
        invariant
            at <= rows.len(),
            all == parts_of(rows@),
            row_at(all, addr as int, 0) == row_at(all, addr as int, at as int),
        decreases rows.len() - at,
    {
        assert(all[at as int] == rows@[at as int]@);
        at = at + 1;
    }
    if at == rows.len() {
        return None;
    }
    assert(all[at as int] == rows@[at as int]@);
    let path = chars_of(rows[at].path.as_str());
    if path.len() == 0 {
        return None;
    }
    let mut base: Option<usize> = None;
    let mut code: Vec<Range<usize>> = Vec::new();
    let mut data: Vec<Range<usize>> = Vec::new();
    let mut i: usize = 0;
    while i < rows.len()
        invariant
            i <= rows.len(),
            all == parts_of(rows@),
            base == base_of(all.take(i as int), path@),
            code@ == code_of(all.take(i as int), path@),
            data@ == data_of(all.take(i as int), path@),
        decreases rows.len() - i,
    {
        proof {
            lemma_prefix(rows@, i as int);
        }
        let row = &rows[i];
        let its = chars_of(row.path.as_str());
        let mine = same(&its, &path);
        let (start, end) = (row.range.start, row.range.end);
        if mine {
            base = match base {
                Some(low) => if start < low {
                    Some(start)
                } else {
                    Some(low)
                },
                None => Some(start),
            };
            if row.runs {
                code.push(Range { start, end });
            }
        }
        if row.write {
            if mine {
                data.push(Range { start, end });
            } else if its.len() == 0 && data.len() > 0 && data[data.len() - 1].end == start {
                let last: usize = data.len() - 1;
                let from: usize = data[last].start;
                data[last] = Range { start: from, end };
            }
        }
        i = i + 1;
    }
    proof {
        assert(all.take(i as int) =~= all);
        lemma_base(all, path@, at as int);
    }
    match base {
        Some(base) => Some(Mapping { path: string_of(&path), base, code, data }),
        None => None,
    }
}

// ---------------------------------------------------------------------------
// The table a plugin hands back
// ---------------------------------------------------------------------------

/// What is wrong with a plugin's table.
#[derive(Debug, Clone, Copy, PartialEq, Eq, Structural)]
pub enum Fault {
    /// The slot that says where the plugin is points into no mapped file.
    Unmapped(usize),
    /// A slot, by its place and what it holds, is not the plugin's code.
    Stray(usize, usize),
}

/// How many slots a plugin's table has.
pub const SLOTS: usize = 8;

/// Which of them opens a session.
pub const SLOT_OPEN: usize = 1;

/// Whether every slot before `n` is the mapping's code.
pub open spec fn all_code(code: Seq<Range<usize>>, slots: Seq<usize>, n: int) -> bool {
    forall|i: int| 0 <= i < n ==> in_code(code, #[trigger] slots[i] as int)
}

pub open spec fn in_code(code: Seq<Range<usize>>, addr: int) -> bool {
    exists|k: int| 0 <= k < code.len() && within(#[trigger] code[k], addr)
}

/// Where the plugin lies, once every slot of its table has been found to be its
/// own code. The file is the one that the slot for opening points into.
pub fn check_table(maps: &str, slots: &Vec<usize>) -> (r: Result<Mapping, Fault>)
    requires
        slots.len() > SLOT_OPEN,
    ensures
        ({
            let rows = rows_of(lines(maps@));
            let open = slots[SLOT_OPEN as int];
            match r {
                Ok(m) => {
                    &&& path_at(rows, open as int) == Some(m.path@)
                    &&& base_of(rows, m.path@) == Some(m.base)
                    &&& m.code@ == code_of(rows, m.path@)
                    &&& m.data@ == data_of(rows, m.path@)
                    &&& all_code(m.code@, slots@, slots.len() as int)
                },
                Err(Fault::Unmapped(at)) => at == open && path_at(rows, open as int) is None,
                Err(Fault::Stray(slot, at)) => {
                    &&& path_at(rows, open as int) is Some
                    &&& slot < slots.len() && at == slots[slot as int]
                    &&& !in_code(code_of(rows, path_at(rows, open as int)->0), at as int)
                    &&& all_code(
                        code_of(rows, path_at(rows, open as int)->0),
                        slots@,
                        slot as int,
                    )
                },
            }
        }),
{
    let open: usize = slots[SLOT_OPEN];
    match locate(maps, open) {
        None => Err(Fault::Unmapped(open)),
        Some(mapping) => {
            let mut i: usize = 0;
            while i < slots.len()
                invariant
                    i <= slots.len(),
                    all_code(mapping.code@, slots@, i as int),
                    ({
                        let rows = rows_of(lines(maps@));
                        &&& path_at(rows, open as int) == Some(mapping.path@)
                        &&& mapping.code@ == code_of(rows, mapping.path@)
                    }),
                    open == slots@[SLOT_OPEN as int],
                decreases slots.len() - i,
            {
                if !mapping.holds_code(slots[i]) {
                    return Err(Fault::Stray(i, slots[i]));
                }
                assert(in_code(mapping.code@, slots@[i as int] as int));
                i = i + 1;
            }
            Ok(mapping)
        },
    }
}

/// The words of one range are four bytes apart from its start on, and those of the next
/// follow.
pub proof fn words_are_counted_through_the_ranges(a: Seq<Range<usize>>, b: Seq<Range<usize>>, index: int)
    requires
        ordered(a),
        ordered(b),
        0 <= index,
    ensures
        index < words_of_all(a) ==> address_in(a + b, index) == address_in(a, index),
        index >= words_of_all(a) ==> address_in(a + b, index) == address_in(b, index - words_of_all(a)),
        words_of_all(a + b) == words_of_all(a) + words_of_all(b),
        a.len() == 1 && index < words_in(a[0]) ==> address_in(a, index) == Some(a[0].start + 4 * index),
    decreases a.len() + b.len(),
{
    lemma_words_from_the_front(a);
    lemma_words_sum(a, b);
    if a.len() == 0 {
        assert(a + b =~= b);
    } else {
        let rest = a.drop_first();
        assert((a + b).drop_first() =~= rest + b);
        assert((a + b)[0] == a[0]);
        assert(forall|i: int| 0 <= i < rest.len() ==> rest[i] == a[i + 1]);
        assert(ordered(rest)) by {
            assert forall|i: int| 0 <= i < rest.len() implies (#[trigger] rest[i]).start <= rest[i].end by {
                assert(rest[i] == a[i + 1]);
            }
        }
        assert(words_of_all(rest) >= 0) by {
            lemma_words_not_negative(rest);
        }
        if index >= words_in(a[0]) {
            words_are_counted_through_the_ranges(rest, b, index - words_in(a[0]));
        }
    }
}

proof fn lemma_words_not_negative(data: Seq<Range<usize>>)
    requires
        ordered(data),
    ensures
        words_of_all(data) >= 0,
    decreases data.len(),
{
    if data.len() > 0 {
        assert(data.last() == data[data.len() - 1]);
        assert(words_in(data.last()) >= 0);
        assert(ordered(data.drop_last())) by {
            assert forall|i: int| 0 <= i < data.drop_last().len() implies (
            #[trigger] data.drop_last()[i]).start <= data.drop_last()[i].end by {
                assert(data.drop_last()[i] == data[i]);
            }
        }
        lemma_words_not_negative(data.drop_last());
    }
}

proof fn lemma_words_sum(a: Seq<Range<usize>>, b: Seq<Range<usize>>)
    ensures
        words_of_all(a + b) == words_of_all(a) + words_of_all(b),
    decreases b.len(),
{
    if b.len() == 0 {
        assert(a + b =~= a);
    } else {
        assert((a + b).drop_last() =~= a + b.drop_last());
        assert((a + b).last() == b.last());
        lemma_words_sum(a, b.drop_last());
    }
}

proof fn lemma_words_from_the_front(data: Seq<Range<usize>>)
    ensures
        data.len() > 0 ==> words_of_all(data) == words_in(data[0]) + words_of_all(data.drop_first()),
{
    if data.len() > 0 {
        let one = seq![data[0]];
        assert(one + data.drop_first() =~= data);
        lemma_words_sum(one, data.drop_first());
        assert(one.drop_last() =~= Seq::<Range<usize>>::empty());
        assert(words_of_all(one.drop_last()) == 0);
        assert(words_of_all(one) == words_in(data[0]));
    }
}

/// A word that holds the value is marked at its address, and no other address is.
pub proof fn what_holds_the_value_is_marked(map: Mapping, words: Seq<u32>, value: u32, i: int)
    ensures
        0 <= i < words.len() && words[i] == value && address_in(map.data@, i) is Some
            ==> map.marked_in(words, value).contains(address_in(map.data@, i)->0),
        forall|at: int|
            #[trigger] map.marked_in(words, value).contains(at) ==> exists|k: int|
                0 <= k < words.len() && words[k] == value && address_in(map.data@, k) == Some(at),
    decreases words.len(),
{
    if words.len() > 0 {
        let less = words.drop_last();
        what_holds_the_value_is_marked(map, less, value, i);
        let before = map.marked_in(less, value);
        let now = map.marked_in(words, value);
        if 0 <= i < words.len() && words[i] == value && address_in(map.data@, i) is Some {
            let at = address_in(map.data@, i)->0;
            if i < less.len() {
                assert(less[i] == words[i]);
                let k = choose|k: int| 0 <= k < before.len() && before[k] == at;
                assert(before.contains(at));
                assert(now[k] == at);
            } else {
                assert(now[now.len() - 1] == at);
            }
        }
        assert forall|at: int| #[trigger] now.contains(at) implies exists|k: int|
            0 <= k < words.len() && words[k] == value && address_in(map.data@, k) == Some(at) by {
            if before.contains(at) {
                let k = choose|k: int|
                    0 <= k < less.len() && less[k] == value && address_in(map.data@, k) == Some(at);
                assert(words[k] == value);
            } else {
                let p = choose|p: int| 0 <= p < now.len() && now[p] == at;
                if p < before.len() {
                    assert(before[p] == at);
                }
                assert(words[words.len() - 1] == value);
            }
        }
    }
}

/// A line of the table gives the range that its two numbers span, and whether it can be run
/// and written.
pub proof fn a_line_of_the_table_reads_as_it_stands(
    from: Seq<char>,
    to: Seq<char>,
    may: Seq<char>,
    start: usize,
    end: usize,
)
    requires
        number(from, 16, usize::MAX as int) == Some(start as int),
        number(to, 16, usize::MAX as int) == Some(end as int),
        forall|i: int| 0 <= i < from.len() ==> !white(#[trigger] from[i]) && from[i] != '-',
        forall|i: int| 0 <= i < to.len() ==> !white(#[trigger] to[i]),
        forall|i: int| 0 <= i < may.len() ==> !white(#[trigger] may[i]),
        may.len() > 0,
    ensures
        row_of(from + seq!['-'] + to + seq![' '] + may) == Some(
            (Range { start, end }, may.contains('x'), may.contains('w'), Seq::<char>::empty()),
        ),
{
    let first = from + seq!['-'] + to;
    let line = first + seq![' '] + may;
    assert(line =~= from + seq!['-'] + to + seq![' '] + may);
    assert forall|i: int| 0 <= i < first.len() implies !white(#[trigger] first[i]) by {
        if i < from.len() {
            assert(first[i] == from[i]);
        } else if i > from.len() {
            assert(first[i] == to[i - from.len() - 1]);
        }
    }
    white_space_parts_words(first, ' ', may);
    white_space_parts_words(may, ' ', seq![]);
    let f = words(line);
    assert(f =~= seq![first, may]);
    assert forall|i: int| 0 <= i < from.len() implies first[i] != '-' by {
        assert(first[i] == from[i]);
    }
    lemma_until(first, '-', from.len());
    assert(first.take(from.len() as int) =~= from);
    assert(first.skip(from.len() as int + 1) =~= to);
}

/// The base of a file is where the lowest of its rows begins.
pub proof fn the_base_is_the_lowest_start(rows: Seq<Parts>, path: Seq<char>, i: int)
    requires
        0 <= i < rows.len(),
        rows[i].3 == path,
    ensures
        base_of(rows, path) matches Some(base) && base <= rows[i].0.start,
        base_of(rows, path) matches Some(base) && exists|k: int|
            0 <= k < rows.len() && (#[trigger] rows[k]).3 == path && rows[k].0.start == base,
    decreases rows.len(),
{
    let less = rows.drop_last();
    if i < less.len() {
        assert(less[i] == rows[i]);
        the_base_is_the_lowest_start(less, path, i);
        let low = base_of(less, path)->0;
        let k = choose|k: int|
            0 <= k < less.len() && (#[trigger] less[k]).3 == path && less[k].0.start == low;
        assert(rows[k] == less[k]);
        if base_of(rows, path) != Some(low) {
            assert(rows[rows.len() - 1].3 == path);
        }
    } else {
        assert(rows.last() == rows[i]);
        if base_of(less, path) is Some {
            lemma_base_is_listed(less, path);
            let low = base_of(less, path)->0;
            let k = choose|k: int|
                0 <= k < less.len() && (#[trigger] less[k]).3 == path && less[k].0.start == low;
            assert(rows[k] == less[k]);
        }
    }
}

proof fn lemma_base_is_listed(rows: Seq<Parts>, path: Seq<char>)
    ensures
        base_of(rows, path) matches Some(base) ==> exists|k: int|
            0 <= k < rows.len() && (#[trigger] rows[k]).3 == path && rows[k].0.start == base,
    decreases rows.len(),
{
    if rows.len() > 0 && base_of(rows, path) is Some {
        let less = rows.drop_last();
        lemma_base_is_listed(less, path);
        let base = base_of(rows, path)->0;
        if base_of(less, path) == Some(base) {
            let k = choose|k: int|
                0 <= k < less.len() && (#[trigger] less[k]).3 == path && less[k].0.start == base;
            assert(rows[k] == less[k]);
        } else {
            assert(rows[rows.len() - 1].3 == path);
        }
    }
}

/// The code of a file is every row of it that can be run, in order, and nothing of another.
pub proof fn the_code_is_what_can_be_run(rows: Seq<Parts>, path: Seq<char>, more: Seq<Parts>, row: Parts)
    ensures
        code_of(rows + more, path) == code_of(rows, path) + code_of(more, path),
        code_of(seq![row], path) == (if row.3 == path && row.1 {
            seq![row.0]
        } else {
            seq![]
        }),
    decreases more.len(),
{
    let one = seq![row];
    assert(one.drop_last() =~= Seq::<Parts>::empty());
    assert(one.last() == row);
    assert(code_of(one.drop_last(), path) =~= Seq::<Range<usize>>::empty());
    assert(code_of(one, path) =~= (if row.3 == path && row.1 {
        seq![row.0]
    } else {
        seq![]
    }));
    if more.len() == 0 {
        assert(rows + more =~= rows);
        assert(code_of(rows, path) + code_of(more, path) =~= code_of(rows, path));
    } else {
        the_code_is_what_can_be_run(rows, path, more.drop_last(), row);
        assert((rows + more).drop_last() =~= rows + more.drop_last());
        assert((rows + more).last() == more.last());
        assert(code_of(rows + more, path) =~= code_of(rows, path) + code_of(more, path));
    }
}

/// The data of a file is every row of it that can be written; a nameless one that goes on
/// where the last ended makes that longer, and any other row is none of it.
pub proof fn the_data_is_what_can_be_written(rows: Seq<Parts>, path: Seq<char>, row: Parts)
    requires
        path.len() > 0,
    ensures
        ({
            let before = data_of(rows, path);
            let now = data_of(rows.push(row), path);
            &&& row.2 && row.3 == path ==> now == before.push(row.0)
            &&& !row.2 ==> now == before
            &&& row.3.len() > 0 && row.3 != path ==> now == before
            &&& row.2 && row.3.len() == 0 && before.len() > 0 && before.last().end == row.0.start
                ==> now.len() == before.len() && now.last().start == before.last().start
                && now.last().end == row.0.end && now.drop_last() == before.drop_last()
            &&& row.3.len() == 0 && (before.len() == 0 || before.last().end != row.0.start) ==> now
                == before
        }),
{
    assert(rows.push(row).drop_last() =~= rows);
    let before = data_of(rows, path);
    let now = data_of(rows.push(row), path);
    if row.2 && row.3.len() == 0 && before.len() > 0 && before.last().end == row.0.start {
        assert(now.drop_last() =~= before.drop_last());
    }
}

/// The file at an address is that of the first row that spans it.
pub proof fn the_file_at_an_address(before: Seq<Parts>, row: Parts, more: Seq<Parts>, addr: int, from: int)
    requires
        forall|i: int| 0 <= i < before.len() ==> !within((#[trigger] before[i]).0, addr),
        row.0.start <= addr < row.0.end,
        0 <= from <= before.len(),
    ensures
        row_at(before.push(row) + more, addr, from) == Some(before.len() as int),
        row_at(before, addr, from) is None,
        from == 0 && row.3.len() > 0 ==> path_at(before.push(row) + more, addr) == Some(row.3),
        from == 0 && row.3.len() == 0 ==> path_at(before.push(row) + more, addr) is None,
    decreases before.len() - from,
{
    let list = before.push(row) + more;
    if from < before.len() {
        assert(list[from] == before[from]);
        the_file_at_an_address(before, row, more, addr, from + 1);
    } else {
        assert(list[from] == row);
    }
    assert(list[before.len() as int] == row);
}

} // verus!
