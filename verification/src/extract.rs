//! Reading requirement names out of a script: a line asks for modules when
//! the comment at its end is marked and the code before it is an import.

use crate::text::{
    begins_with, chars_of, copy_range, find, find_from, first_word, lemma_find, lemma_first_word,
    lemma_skip_spaces, lemma_skip_word, second_word, skip_spaces, skip_spaces_from, skip_word,
    skip_word_from, starts_with, texts,
};
use vstd::prelude::*;

verus! {

/// Whether a comment (the text after `#`) is marked: after any leading white
/// space it begins with `fades` or with `spyn`. Only the beginning is looked
/// at, so a comment that goes on after the marker is marked too.
pub open spec fn is_marked(comment: Seq<char>) -> bool {
    let text = comment.skip(skip_spaces(comment, 0));
    starts_with(text, "fades"@) || starts_with(text, "spyn"@)
}

/// The modules of a comma-separated list that starts at `from`: of every
/// piece between two commas its first word, pieces without a word left out.
pub open spec fn listed_modules(s: Seq<char>, from: int) -> Seq<Seq<char>>
    decreases s.len() - from,
    when 0 <= from <= s.len()
    via listed_modules_decreases
{
    let end = find(s, ',', from);
    let head = match first_word(s.subrange(from, end)) {
        Some(w) => seq![w],
        None => Seq::empty(),
    };
    if end < s.len() {
        head + listed_modules(s, end + 1)
    } else {
        head
    }
}

#[via_fn]
proof fn listed_modules_decreases(s: Seq<char>, from: int) {
    lemma_find(s, ',', from);
}

/// The modules that one line asks for, in the order in which it names them.
///
/// `None` where the line has no `#`, where the comment after its first `#` is
/// not marked, and where the code starts with `from` and has no second word.
/// Code that starts with `from` names its second word. Code that starts with
/// `import` names the first word of each comma-separated piece after that
/// keyword. Any other code names nothing.
pub open spec fn line_modules(line: Seq<char>) -> Option<Seq<Seq<char>>> {
    let hash = find(line, '#', 0);
    if hash >= line.len() {
        None
    } else {
        let code = line.take(hash);
        if !is_marked(line.skip(hash + 1)) {
            None
        } else if starts_with(code, "from"@) {
            match second_word(code) {
                Some(w) => Some(seq![w]),
                None => None,
            }
        } else if starts_with(code, "import"@) {
            Some(listed_modules(code, "import"@.len() as int))
        } else {
            Some(Seq::empty())
        }
    }
}

/// The modules that a line asks for; none where `line_modules` gives `None`.
pub open spec fn line_names(line: Seq<char>) -> Seq<Seq<char>> {
    match line_modules(line) {
        Some(names) => names,
        None => Seq::empty(),
    }
}

/// No listed module is the empty name.
pub proof fn lemma_listed_modules(s: Seq<char>, from: int)
    requires
        0 <= from <= s.len(),
    ensures
        forall|k: int|
            0 <= k < listed_modules(s, from).len() ==> (#[trigger] listed_modules(s, from)[k]).len()
                > 0,
    decreases s.len() - from,
{
    lemma_find(s, ',', from);
    let end = find(s, ',', from);
    let head = match first_word(s.subrange(from, end)) {
        Some(w) => seq![w],
        None => Seq::empty(),
    };
    lemma_first_word(s.subrange(from, end));
    let all = listed_modules(s, from);
    if end < s.len() {
        lemma_listed_modules(s, end + 1);
        let rest = listed_modules(s, end + 1);
        assert(all == head + rest);
        assert forall|k: int| 0 <= k < all.len() implies (#[trigger] all[k]).len() > 0 by {
            if k >= head.len() {
                assert(all[k] == rest[k - head.len()]);
            }
        }
    } else {
        assert(all == head);
    }
}

/// No module that a line asks for is the empty name.
pub proof fn lemma_line_names(line: Seq<char>)
    ensures
        forall|k: int| 0 <= k < line_names(line).len() ==> (#[trigger] line_names(line)[k]).len() > 0,
{
    lemma_find(line, '#', 0);
    let hash = find(line, '#', 0);
    if hash < line.len() {
        let code = line.take(hash);
        reveal_strlit("import");
        if starts_with(code, "import"@) {
            lemma_listed_modules(code, 6);
        }
        lemma_skip_spaces(code, 0);
        lemma_skip_word(code, skip_spaces(code, 0));
        lemma_skip_spaces(code, skip_word(code, skip_spaces(code, 0)));
        let start = skip_spaces(code, skip_word(code, skip_spaces(code, 0)));
        lemma_skip_word(code, start);
    }
}

/// The texts of an optional list of strings.
pub open spec fn texts_of(names: Option<Vec<String>>) -> Option<Seq<Seq<char>>> {
    match names {
        Some(v) => Some(texts(v@)),
        None => None,
    }
}

/// Whether `comment` is marked.
pub fn comment_is_marked(comment: &Vec<char>) -> (b: bool)
    ensures
        b == is_marked(comment@),
{
    let start = skip_spaces_from(comment, 0);
    let text = copy_range(comment, start, comment.len());
    begins_with(&text, "fades") || begins_with(&text, "spyn")
}

/// Owned copy of the characters of `line` from `from` up to `to`.
fn word_at(line: &str, from: usize, to: usize) -> (w: String)
    requires
        from <= to <= line@.len(),
    ensures
        w@ == line@.subrange(from as int, to as int),
{
    line.substring_char(from, to).to_owned()
}

/// The modules listed in `code` after position `from`, where `code` is the
/// beginning of `line`.
fn modules_listed(line: &str, code: &Vec<char>, from: usize) -> (v: Vec<String>)
    requires
        from <= code@.len(),
        code@.len() <= line@.len(),
        code@ == line@.take(code@.len() as int),
    ensures
        texts(v@) == listed_modules(code@, from as int),
{
    let mut v: Vec<String> = Vec::new();
    let mut at = from;
    loop
        invariant_except_break
            from <= at <= code@.len(),
            code@.len() <= line@.len(),
            code@ == line@.take(code@.len() as int),
            texts(v@) + listed_modules(code@, at as int) == listed_modules(code@, from as int),
        ensures
            texts(v@) == listed_modules(code@, from as int),
        decreases code@.len() - at,
    {
        let end = find_from(code, ',', at);
        let piece = copy_range(code, at, end);
        let start = skip_spaces_from(&piece, 0);
        let ghost before = texts(v@);
        if start < piece.len() {
            let stop = skip_word_from(&piece, start);
            let word = word_at(line, at + start, at + stop);
            proof {
                assert(word@ =~= piece@.subrange(start as int, stop as int));
            }
            v.push(word);
            proof {
                assert(texts(v@) =~= before + seq![piece@.subrange(start as int, stop as int)]);
            }
        }
        proof {
            let head = match first_word(piece@) {
                Some(w) => seq![w],
                None => Seq::empty(),
            };
            assert(texts(v@) =~= before + head);
            if end < code@.len() {
                assert(listed_modules(code@, at as int) == head + listed_modules(
                    code@,
                    end + 1,
                ));
                assert(texts(v@) + listed_modules(code@, end + 1) =~= before + listed_modules(
                    code@,
                    at as int,
                ));
            } else {
                assert(listed_modules(code@, at as int) == head);
            }
        }
        if end < code.len() {
            at = end + 1;
        } else {
            break ;
        }
    }
    v
}

/// Reads the modules that one line asks for.
pub fn parse_line_req(line: &str) -> (names: Option<Vec<String>>)
    ensures
        texts_of(names) == line_modules(line@),
{
    let chars = chars_of(line);
    let hash = find_from(&chars, '#', 0);
    if hash >= chars.len() {
        return None;
    }
    let code = copy_range(&chars, 0, hash);
    let comment = copy_range(&chars, hash + 1, chars.len());
    assert(code@ =~= line@.take(hash as int));
    assert(comment@ =~= line@.skip(hash + 1));
    if !comment_is_marked(&comment) {
        return None;
    }
    if begins_with(&code, "from") {
        let first = skip_spaces_from(&code, 0);
        let gap = skip_word_from(&code, first);
        let start = skip_spaces_from(&code, gap);
        if start < code.len() {
            let stop = skip_word_from(&code, start);
            let word = word_at(line, start, stop);
            let mut v: Vec<String> = Vec::new();
            assert(word@ =~= code@.subrange(start as int, stop as int));
            v.push(word);
            assert(texts(v@) =~= seq![code@.subrange(start as int, stop as int)]);
            Some(v)
        } else {
            None
        }
    } else if begins_with(&code, "import") {
        proof {
            reveal_strlit("import");
        }
        Some(modules_listed(line, &code, 6))
    } else {
        let v: Vec<String> = Vec::new();
        assert(texts(v@) =~= Seq::<Seq<char>>::empty());
        Some(v)
    }
}

} // verus!
