//! The files that the user picked, as the file dialog prints them.

use crate::http::{internal_error, HttpError, Status};
use crate::text::{lossy_text, texts, utf8_lossy};
use vstd::prelude::*;
use vstd::string::*;
use vstd::utf8::*;

verus! {

/// Whether a character is white space, as Unicode has it.
pub open spec fn white(c: char) -> bool {
    let u = c as u32;
    ||| 9 <= u <= 13
    ||| u == 0x20
    ||| u == 0x85
    ||| u == 0xa0
    ||| u == 0x1680
    ||| 0x2000 <= u <= 0x200a
    ||| u == 0x2028
    ||| u == 0x2029
    ||| u == 0x202f
    ||| u == 0x205f
    ||| u == 0x3000
}

/// Whether a character is white space.
pub fn is_white(c: char) -> (r: bool)
    ensures
        r == white(c),
{
    let u = c as u32;
    (9 <= u && u <= 13) || u == 0x20 || u == 0x85 || u == 0xa0 || u == 0x1680 || (0x2000 <= u && u
        <= 0x200a) || u == 0x2028 || u == 0x2029 || u == 0x202f || u == 0x205f || u == 0x3000
}

/// Whether a line holds nothing but white space.
pub open spec fn blank(line: Seq<char>) -> bool {
    forall|i: int| 0 <= i < line.len() ==> white(#[trigger] line[i])
}

/// How many characters stand before the first line feed.
pub open spec fn line_length(text: Seq<char>) -> int
    decreases text.len(),
{
    if text.len() == 0 || text[0] == '\n' {
        0
    } else {
        1 + line_length(text.skip(1))
    }
}

/// The lines of a text. A line ends with a line feed; the last one may end with
/// the text.
pub open spec fn lines(text: Seq<char>) -> Seq<Seq<char>>
    decreases text.len(),
    via lines_decreases
{
    if text.len() == 0 {
        Seq::empty()
    } else if line_length(text) >= text.len() {
        seq![text]
    } else {
        seq![text.take(line_length(text))] + lines(text.skip(line_length(text) + 1))
    }
}

#[via_fn]
proof fn lines_decreases(text: Seq<char>) {
    lemma_line_length(text);
}

proof fn lemma_line_length(text: Seq<char>)
    ensures
        0 <= line_length(text) <= text.len(),
        line_length(text) < text.len() ==> text[line_length(text)] == '\n',
        forall|j: int| 0 <= j < line_length(text) ==> text[j] != '\n',
    decreases text.len(),
{
    if text.len() > 0 && text[0] != '\n' {
        lemma_line_length(text.skip(1));
        assert forall|j: int| 0 <= j < line_length(text) implies text[j] != '\n' by {
            if j > 0 {
                assert(text.skip(1)[j - 1] == text[j]);
            }
        }
    }
}

/// The paths in what the dialog prints: one on each line, just as it stands
/// there; lines without a path do not count.
pub open spec fn picked(text: Seq<char>) -> Seq<Seq<char>> {
    lines(text).filter(|line: Seq<char>| !blank(line))
}

/// The characters of a text.
fn characters(text: &str) -> (r: Vec<char>)
    ensures
        r@ == text@,
{
    let mut r: Vec<char> = Vec::new();
    for c in it: text.chars()
        invariant
            r@ == it.seq().take(it.index() as int),
            it.seq() == text@,
    {
        r.push(c);
    }
    r
}

/// The text of some characters.
fn text_between(chars: &Vec<char>, from: usize, to: usize) -> (r: String)
    requires
        from <= to <= chars@.len(),
    ensures
        r@ == chars@.subrange(from as int, to as int),
{
    let mut r = String::new();
    let mut i: usize = from;
    while i < to
        invariant
            from <= i <= to <= chars@.len(),
            r@ == chars@.subrange(from as int, i as int),
        decreases to - i,
    {
        r.push(chars[i]);
        assert(r@ =~= chars@.subrange(from as int, i + 1));
        i = i + 1;
    }
    r
}

/// Whether a part of some characters is blank.
fn is_blank(chars: &Vec<char>, from: usize, to: usize) -> (r: bool)
    requires
        from <= to <= chars@.len(),
    ensures
        r == blank(chars@.subrange(from as int, to as int)),
{
    let ghost line = chars@.subrange(from as int, to as int);
    let mut i: usize = from;
    while i < to
        invariant
            from <= i <= to <= chars@.len(),
            line == chars@.subrange(from as int, to as int),
            forall|j: int| 0 <= j < i - from ==> white(#[trigger] line[j]),
        decreases to - i,
    {
        assert(line[i - from] == chars@[i as int]);
        if !is_white(chars[i]) {
            return false;
        }
        i = i + 1;
    }
    true
}

/// The path on a line, or nothing where there is none.
spec fn path_on(line: Seq<char>) -> Seq<Seq<char>> {
    if blank(line) {
        Seq::empty()
    } else {
        seq![line]
    }
}

/// The first line of a text.
spec fn first_line(text: Seq<char>) -> Seq<char> {
    text.take(line_length(text))
}

/// What follows the first line.
spec fn after_line(text: Seq<char>) -> Seq<char> {
    if line_length(text) >= text.len() {
        Seq::empty()
    } else {
        text.skip(line_length(text) + 1)
    }
}

proof fn lemma_picked_step(text: Seq<char>)
    requires
        text.len() > 0,
    ensures
        picked(text) == path_on(first_line(text)) + picked(after_line(text)),
{
    let keep = |line: Seq<char>| !blank(line);
    let head = seq![first_line(text)];
    let rest = lines(after_line(text));
    lemma_line_length(text);
    if line_length(text) >= text.len() {
        assert(first_line(text) =~= text);
    }
    assert(lines(text) =~= head + rest);
    Seq::filter_distributes_over_add(head, rest, keep);
    reveal_with_fuel(Seq::filter, 2);
    assert(head.drop_last() =~= Seq::empty());
    assert(head.filter(keep) =~= path_on(first_line(text)));
}

proof fn lemma_picked_empty()
    ensures
        picked(Seq::empty()) == Seq::<Seq<char>>::empty(),
{
    reveal(Seq::filter);
}

/// Finds the paths in what the dialog printed.
pub fn picked_paths(text: &str) -> (r: Vec<String>)
    ensures
        texts(r@) == picked(text@),
{
    let chars = characters(text);
    let mut r: Vec<String> = Vec::new();
    let mut start: usize = 0;
    assert(text@.skip(0) =~= text@);
    assert(texts(r@) + picked(text@) =~= picked(text@));
    while start < chars.len()
        invariant
            start <= chars@.len(),
            chars@ == text@,
            picked(text@) == texts(r@) + picked(text@.skip(start as int)),
        decreases chars@.len() - start,
    {
        let ghost rest = text@.skip(start as int);
        let mut end: usize = start;
        while end < chars.len() && chars[end] != '\n'
            invariant
                start <= end <= chars@.len(),
                chars@ == text@,
                rest == text@.skip(start as int),
                line_length(rest) == (end - start) + line_length(text@.skip(end as int)),
            decreases chars@.len() - end,
        {
            assert(text@.skip(end as int).skip(1) =~= text@.skip(end + 1));
            end = end + 1;
        }
        proof {
            lemma_picked_step(rest);
            assert(line_length(rest) == end - start);
            assert(first_line(rest) =~= chars@.subrange(start as int, end as int));
        }
        let ghost before = r@;
        if !is_blank(&chars, start, end) {
            r.push(text_between(&chars, start, end));
        }
        assert(texts(r@) =~= texts(before) + path_on(first_line(rest)));
        if end < chars.len() {
            assert(after_line(rest) =~= text@.skip(end + 1));
            start = end + 1;
        } else {
            assert(after_line(rest) =~= text@.skip(end as int));
            start = end;
        }
        assert(picked(text@) =~= texts(r@) + picked(text@.skip(start as int)));
    }
    proof {
        assert(text@.skip(start as int) =~= Seq::empty());
        lemma_picked_empty();
    }
    r
}

/// What the file dialog left behind.
pub struct DialogOutput {
    /// Whether it ended well; it does not when the user cancels.
    pub success: bool,
    pub stdout: Vec<u8>,
}

/// The files that the user picked: none where the user cancelled, or where the
/// dialog could not be shown.
pub fn pick_files(output: &Option<DialogOutput>) -> (r: Vec<String>)
    ensures
        texts(r@) == (match output {
            Some(o) => if o.success {
                picked(utf8_lossy(o.stdout@))
            } else {
                Seq::empty()
            },
            None => Seq::empty(),
        }),
        output matches Some(o) ==> o.success && valid_utf8(o.stdout@) ==> texts(r@) == picked(
            decode_utf8(o.stdout@),
        ),
{
    match output {
        Some(o) => {
            if o.success {
                picked_paths(lossy_text(o.stdout.as_slice()).as_str())
            } else {
                let r: Vec<String> = Vec::new();
                assert(texts(r@) =~= Seq::empty());
                r
            }
        },
        None => {
            let r: Vec<String> = Vec::new();
            assert(texts(r@) =~= Seq::empty());
            r
        },
    }
}

/// What is answered when the dialog's task broke down.
pub fn pick_failed(error: &str) -> (r: HttpError)
    ensures
        r@ == (Status::InternalServerError, "pick"@ + ": "@ + error@),
{
    internal_error("pick", error)
}

/// Whether a path can be printed on a line of its own and found again: it is not
/// blank, and holds no line feed.
pub open spec fn printable(path: Seq<char>) -> bool {
    !blank(path) && !path.contains('\n')
}

/// Paths, each on a line of its own.
pub open spec fn printed(paths: Seq<Seq<char>>) -> Seq<char>
    decreases paths.len(),
{
    if paths.len() == 0 {
        Seq::empty()
    } else {
        paths[0] + seq!['\n'] + printed(paths.skip(1))
    }
}

/// The paths that the user picked are found again, all of them, unchanged and in
/// their order, in what the dialog prints of them, also where that is passed on
/// in UTF-8.
pub proof fn law_printed_paths_are_picked(paths: Seq<Seq<char>>)
    requires
        forall|i: int|
            0 <= i < paths.len() ==> (exists|k: int|
                0 <= k < (#[trigger] paths[i]).len() && !white(#[trigger] paths[i][k]))
                && !paths[i].contains('\n'),
    ensures
        picked(printed(paths)) == paths,
        valid_utf8(encode_utf8(printed(paths))),
        picked(decode_utf8(encode_utf8(printed(paths)))) == paths,
    decreases paths.len(),
{
    encode_utf8_valid_utf8(printed(paths));
    encode_utf8_decode_utf8(printed(paths));
    if paths.len() == 0 {
        lemma_picked_empty();
        assert(picked(printed(paths)) =~= paths);
    } else {
        let path = paths[0];
        let rest = printed(paths.skip(1));
        let text = path + seq!['\n'] + rest;
        assert forall|i: int| 0 <= i < paths.skip(1).len() implies (exists|k: int|
            0 <= k < (#[trigger] paths.skip(1)[i]).len() && !white(
                #[trigger] paths.skip(1)[i][k],
            )) && !paths.skip(1)[i].contains('\n') by {
            assert(paths.skip(1)[i] == paths[i + 1]);
            let k = choose|k: int|
                0 <= k < paths[i + 1].len() && !white(#[trigger] paths[i + 1][k]);
            assert(!white(paths.skip(1)[i][k]));
        }
        assert(!blank(path)) by {
            let k = choose|k: int| 0 <= k < paths[0].len() && !white(#[trigger] paths[0][k]);
            assert(!white(path[k]));
        }
        law_printed_paths_are_picked(paths.skip(1));
        lemma_line_length(text);
        assert(line_length(text) == path.len()) by {
            assert(text[path.len() as int] == '\n');
            if line_length(text) < path.len() {
                assert(text[line_length(text)] == path[line_length(text)]);
                assert(path.contains('\n'));
            }
        }
        assert(first_line(text) =~= path);
        assert(after_line(text) =~= rest);
        lemma_picked_step(text);
        assert(picked(text) =~= seq![path] + paths.skip(1));
        assert(picked(text) =~= paths);
    }
}

/// Whatever the dialog prints, each path found in it is a line of its own that is
/// not blank.
pub proof fn law_picked_paths_are_printable(text: Seq<char>)
    ensures
        forall|i: int| 0 <= i < picked(text).len() ==> printable(#[trigger] picked(text)[i]),
    decreases text.len(),
{
    if text.len() == 0 {
        assert(text =~= Seq::empty());
        lemma_picked_empty();
    } else {
        lemma_picked_step(text);
        lemma_line_length(text);
        law_picked_paths_are_printable(after_line(text));
        let line = first_line(text);
        assert(!line.contains('\n')) by {
            if line.contains('\n') {
                let k = choose|k: int| 0 <= k < line.len() && line[k] == '\n';
                assert(line[k] == text[k]);
            }
        }
        let head = path_on(line);
        assert forall|i: int| 0 <= i < picked(text).len() implies printable(
            #[trigger] picked(text)[i],
        ) by {
            if i < head.len() {
                assert(picked(text)[i] == line);
            } else {
                assert(picked(text)[i] == picked(after_line(text))[i - head.len()]);
            }
        }
    }
}

/// Whether every path of a list was picked.
pub open spec fn all_picked(paths: Seq<Seq<char>>, picked: Seq<Seq<char>>) -> bool {
    forall|i: int| 0 <= i < paths.len() ==> picked.contains(#[trigger] paths[i])
}

/// Whether a list of texts holds the given one.
fn holds(list: &Vec<String>, text: &String) -> (r: bool)
    ensures
        r == texts(list@).contains(text@),
{
    let mut i: usize = 0;
    while i < list.len()
        invariant
            i <= list@.len(),
            forall|j: int| 0 <= j < i ==> texts(list@)[j] != text@,
        decreases list@.len() - i,
    {
        assert(texts(list@)[i as int] == list@[i as int]@);
        if list[i] == *text {
            return true;
        }
        i = i + 1;
    }
    false
}

/// Whether every path of a list was picked.
pub fn only_picked(paths: &Vec<String>, picked: &Vec<String>) -> (r: bool)
    ensures
        r == all_picked(texts(paths@), texts(picked@)),
        r == (forall|i: int|
            0 <= i < paths@.len() ==> texts(picked@).contains(#[trigger] texts(paths@)[i])),
{
    let mut i: usize = 0;
    while i < paths.len()
        invariant
            i <= paths@.len(),
            forall|j: int|
                0 <= j < i ==> texts(picked@).contains(#[trigger] texts(paths@)[j]),
        decreases paths@.len() - i,
    {
        assert(texts(paths@)[i as int] == paths@[i as int]@);
        if !holds(picked, &paths[i]) {
            return false;
        }
        i = i + 1;
    }
    true
}

/// The files that the user picked in this session.
#[derive(Debug)]
pub struct PickedFiles {
    paths: Vec<String>,
}

impl View for PickedFiles {
    type V = Seq<Seq<char>>;

    closed spec fn view(&self) -> Seq<Seq<char>> {
        texts(self.paths@)
    }
}

impl PickedFiles {
    /// No files yet.
    pub fn new() -> (r: PickedFiles)
        ensures
            r@ == Seq::<Seq<char>>::empty(),
    {
        let r = PickedFiles { paths: Vec::new() };
        assert(r@ =~= Seq::empty());
        r
    }

    /// Adds the files that the user picked in one go.
    pub fn record(&mut self, paths: &Vec<String>)
        ensures
            final(self)@ == old(self)@ + texts(paths@),
    {
        let mut i: usize = 0;
        assert(self@ + texts(paths@).take(0) =~= self@);
        while i < paths.len()
            invariant
                i <= paths@.len(),
                self@ == old(self)@ + texts(paths@).take(i as int),
            decreases paths@.len() - i,
        {
            let ghost before = self@;
            self.paths.push(paths[i].clone());
            proof {
                assert(self@ =~= before.push(texts(paths@)[i as int]));
                assert(self@ =~= old(self)@ + texts(paths@).take(i + 1));
            }
            i = i + 1;
        }
        assert(texts(paths@).take(i as int) =~= texts(paths@));
    }

    /// Whether every path of a list was picked.
    pub fn cover(&self, paths: &Vec<String>) -> (r: bool)
        ensures
            r == all_picked(texts(paths@), self@),
            r == (forall|i: int|
                0 <= i < paths@.len() ==> self@.contains(#[trigger] texts(paths@)[i])),
    {
        only_picked(paths, &self.paths)
    }
}

/// What is on record after the user picked files a number of times.
pub open spec fn picked_in_all(picks: Seq<Seq<Seq<char>>>) -> Seq<Seq<char>>
    decreases picks.len(),
{
    if picks.len() == 0 {
        Seq::empty()
    } else {
        picked_in_all(picks.drop_last()) + picks.last()
    }
}

/// A path is on record exactly where the user picked it, at one time or another.
pub proof fn law_record_holds_what_was_picked(picks: Seq<Seq<Seq<char>>>, path: Seq<char>)
    ensures
        picked_in_all(picks).contains(path) <==> exists|k: int|
            0 <= k < picks.len() && (#[trigger] picks[k]).contains(path),
    decreases picks.len(),
{
    if picks.len() > 0 {
        let head = picks.drop_last();
        law_record_holds_what_was_picked(head, path);
        let all = picked_in_all(head) + picks.last();
        if picks.last().contains(path) {
            let j = choose|j: int| 0 <= j < picks.last().len() && picks.last()[j] == path;
            assert(all[picked_in_all(head).len() + j] == path);
            assert(picks[picks.len() - 1].contains(path));
        }
        if picked_in_all(head).contains(path) {
            let j = choose|j: int|
                0 <= j < picked_in_all(head).len() && picked_in_all(head)[j] == path;
            assert(all[j] == path);
            let k = choose|k: int| 0 <= k < head.len() && (#[trigger] head[k]).contains(path);
            assert(picks[k].contains(path));
        }
        if all.contains(path) {
            let j = choose|j: int| 0 <= j < all.len() && all[j] == path;
            if j < picked_in_all(head).len() {
                assert(picked_in_all(head)[j] == path);
            } else {
                assert(picks.last()[j - picked_in_all(head).len()] == path);
            }
        }
        if exists|k: int| 0 <= k < picks.len() && (#[trigger] picks[k]).contains(path) {
            let k = choose|k: int| 0 <= k < picks.len() && (#[trigger] picks[k]).contains(path);
            if k < head.len() {
                assert(head[k].contains(path));
            }
        }
    }
}

/// White space is the tab and the four that follow it, the space, the next-line
/// and no-break characters, and the spaces and separators of other scripts.
pub proof fn law_white_space_is_that_of_unicode(c: char)
    ensures
        white(c) <==> (9 <= c as u32 <= 13 || c as u32 == 0x20 || c as u32 == 0x85 || c as u32
            == 0xa0 || c as u32 == 0x1680 || 0x2000 <= c as u32 <= 0x200a || c as u32 == 0x2028
            || c as u32 == 0x2029 || c as u32 == 0x202f || c as u32 == 0x205f || c as u32
            == 0x3000),
{
}

/// What the dialog prints is read line by line: a line of which at least one
/// character is not white space is a path, just as it stands, and the others are
/// left out; the last line need not be ended.
pub proof fn law_each_line_is_a_path_unless_all_white(line: Seq<char>, rest: Seq<char>)
    requires
        !line.contains('\n'),
    ensures
        picked(Seq::empty()) == Seq::<Seq<char>>::empty(),
        (exists|i: int| 0 <= i < line.len() && !white(#[trigger] line[i])) ==> picked(
            line + seq!['\n'] + rest,
        ) == seq![line] + picked(rest) && picked(line) == seq![line],
        (forall|i: int| 0 <= i < line.len() ==> white(#[trigger] line[i])) ==> picked(
            line + seq!['\n'] + rest,
        ) == picked(rest) && picked(line) == Seq::<Seq<char>>::empty(),
{
    let text = line + seq!['\n'] + rest;
    lemma_picked_empty();
    lemma_line_length(text);
    assert(text[line.len() as int] == '\n');
    if line_length(text) < line.len() {
        assert(text[line_length(text)] == line[line_length(text)]);
        assert(line.contains('\n'));
    }
    assert(line_length(text) == line.len());
    assert(first_line(text) =~= line);
    assert(after_line(text) =~= rest);
    lemma_picked_step(text);
    lemma_line_length(line);
    if line_length(line) < line.len() {
        assert(line.contains('\n'));
    }
    assert(first_line(line) =~= line);
    if line.len() > 0 {
        lemma_picked_step(line);
        assert(picked(line) =~= path_on(line));
    } else {
        assert(line =~= Seq::empty());
    }
    assert(picked(text) =~= path_on(line) + picked(rest));
}

/// A list is one of picked files exactly where each of its paths is among them.
pub proof fn law_all_picked_means_each(
    paths: Seq<Seq<char>>,
    path: Seq<char>,
    picked: Seq<Seq<char>>,
)
    ensures
        all_picked(Seq::empty(), picked),
        all_picked(paths.push(path), picked) <==> all_picked(paths, picked) && picked.contains(
            path,
        ),
{
    let longer = paths.push(path);
    if all_picked(longer, picked) {
        assert(longer[paths.len() as int] == path);
        assert forall|i: int| 0 <= i < paths.len() implies picked.contains(
            #[trigger] paths[i],
        ) by {
            assert(longer[i] == paths[i]);
        }
    }
}

/// What is on record grows by just the files of each pick.
pub proof fn law_record_grows_by_each_pick(picks: Seq<Seq<Seq<char>>>, pick: Seq<Seq<char>>)
    ensures
        picked_in_all(Seq::empty()) == Seq::<Seq<char>>::empty(),
        picked_in_all(picks.push(pick)) == picked_in_all(picks) + pick,
{
    assert(picks.push(pick).drop_last() =~= picks);
}

} // verus!
