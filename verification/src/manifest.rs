//! The requirements manifest: the file from which the installer reads the
//! names to install, one to a line.

use crate::paths::{join, joined_path};
use crate::text::{find, lemma_find};
use vstd::prelude::*;

verus! {

/// A manifest file to be written: where it goes and what it holds.
#[derive(Debug)]
pub struct Manifest {
    pub path: String,
    pub contents: String,
}

/// What a `Manifest` says, as plain text.
pub struct ManifestView {
    pub path: Seq<char>,
    pub contents: Seq<char>,
}

impl View for Manifest {
    type V = ManifestView;

    open spec fn view(&self) -> ManifestView {
        ManifestView { path: self.path@, contents: self.contents@ }
    }
}

/// The path of the manifest in the directory `dir`: `requirements.txt` in
/// it.
pub open spec fn manifest_path(dir: Seq<char>) -> Seq<char> {
    joined_path(dir, "requirements.txt"@)
}

impl Manifest {
    /// The manifest with the given contents in the directory `dir`.
    pub fn in_dir(dir: &str, contents: String) -> (file: Manifest)
        ensures
            file@ == (ManifestView { path: manifest_path(dir@), contents: contents@ }),
    {
        Manifest { path: join(dir, "requirements.txt"), contents }
    }
}

/// The text of a manifest that lists `names`: every name followed by a line
/// feed, in the given order.
pub open spec fn manifest_text(names: Seq<Seq<char>>) -> Seq<char>
    decreases names.len(),
{
    if names.len() == 0 {
        Seq::empty()
    } else {
        names.first() + seq!['\n'] + manifest_text(names.drop_first())
    }
}

/// The lines of a text: the pieces that its line feeds end, and what follows
/// the last line feed if that is not empty.
pub open spec fn text_lines(text: Seq<char>) -> Seq<Seq<char>>
    decreases text.len(),
    when true
    via text_lines_decreases
{
    if text.len() == 0 {
        Seq::empty()
    } else {
        let end = find(text, '\n', 0);
        if end < text.len() {
            seq![text.take(end)] + text_lines(text.skip(end + 1))
        } else {
            seq![text]
        }
    }
}

#[via_fn]
proof fn text_lines_decreases(text: Seq<char>) {
    lemma_find(text, '\n', 0);
}

/// Whether no name holds a line feed.
pub open spec fn single_lines(names: Seq<Seq<char>>) -> bool {
    forall|i: int| 0 <= i < names.len() ==> !(#[trigger] names[i]).contains('\n')
}

/// Listing one more name adds one more line at the end.
pub proof fn lemma_manifest_text_push(names: Seq<Seq<char>>, name: Seq<char>)
    ensures
        manifest_text(names.push(name)) == manifest_text(names) + name + seq!['\n'],
    decreases names.len(),
{
    let more = names.push(name);
    if names.len() == 0 {
        assert(more.drop_first() =~= names);
        assert(manifest_text(names) =~= Seq::<char>::empty());
        assert(manifest_text(more) =~= name + seq!['\n'] + manifest_text(names));
        assert(manifest_text(more) =~= manifest_text(names) + name + seq!['\n']);
    } else {
        lemma_manifest_text_push(names.drop_first(), name);
        assert(more.drop_first() =~= names.drop_first().push(name));
        assert(manifest_text(more) =~= manifest_text(names) + name + seq!['\n']);
    }
}

/// A manifest holds exactly one line for each name listed, in the order
/// listed, provided that no name holds a line feed itself.
pub proof fn law_manifest_lines(names: Seq<Seq<char>>)
    requires
        single_lines(names),
    ensures
        text_lines(manifest_text(names)) == names,
    decreases names.len(),
{
    let text = manifest_text(names);
    if names.len() == 0 {
        assert(text_lines(text) =~= names);
    } else {
        let head = names.first();
        let rest = manifest_text(names.drop_first());
        let m = head.len() as int;
        assert(text =~= head + seq!['\n'] + rest);
        assert(text[m] == '\n');
        lemma_find(text, '\n', 0);
        let end = find(text, '\n', 0);
        if end < m {
            assert(head[end] == '\n');
            assert(head.contains('\n'));
        }
        assert(end == m);
        assert(text.take(end) =~= head);
        assert(text.skip(end + 1) =~= rest);
        assert(single_lines(names.drop_first())) by {
            assert forall|i: int| 0 <= i < names.drop_first().len() implies !(
            #[trigger] names.drop_first()[i]).contains('\n') by {
                assert(names.drop_first()[i] == names[i + 1]);
            }
        }
        law_manifest_lines(names.drop_first());
        assert(text_lines(text) =~= seq![head] + names.drop_first());
        assert(seq![head] + names.drop_first() =~= names);
    }
}

} // verus!
