//! The requirement set: the names of the packages an environment must hold.

use crate::digest::{
    encode_digest, hex_digits, lemma_hex_text_digits, sha3_224_digest, DIGEST_LEN,
};
use crate::fingerprint::{
    append_bytes, fingerprint, fingerprint_message, joined, selector_bytes, selector_prefix,
    text_of,
};
use crate::manifest::{lemma_manifest_text_push, manifest_path, manifest_text, Manifest};
use crate::order::{
    lemma_ascending_len, lemma_name_lt_irreflexive, lemma_name_lt_transitive,
    lemma_sorted_members, name_lt, rank, sorted_members, strictly_ascending, Rank,
};
use crate::extract::{lemma_line_names, line_names, parse_line_req};
use crate::text::texts;
use vstd::prelude::*;
use vstd::string::StringExecFns;

verus! {

/// A set of names after `name` was added to it. The empty name adds nothing.
pub open spec fn with_name(members: Set<Seq<char>>, name: Seq<char>) -> Set<Seq<char>> {
    if name.len() == 0 {
        members
    } else {
        members.insert(name)
    }
}

/// Adding a name a second time changes nothing.
pub proof fn law_add_twice(members: Set<Seq<char>>, name: Seq<char>)
    ensures
        with_name(with_name(members, name), name) == with_name(members, name),
{
    assert(with_name(with_name(members, name), name) =~= with_name(members, name));
}

/// Two names can be added in either order.
pub proof fn law_add_either_order(members: Set<Seq<char>>, first: Seq<char>, second: Seq<char>)
    ensures
        with_name(with_name(members, first), second) == with_name(
            with_name(members, second),
            first,
        ),
{
    assert(with_name(with_name(members, first), second) =~= with_name(
        with_name(members, second),
        first,
    ));
}

/// The names of `names` that can be members: all but the empty one.
pub open spec fn named(names: Seq<Seq<char>>) -> Set<Seq<char>> {
    Set::new(|name: Seq<char>| name.len() > 0 && names.contains(name))
}

/// The names that the lines of a script ask for, all lines taken together.
pub open spec fn extracted(lines: Seq<Seq<char>>) -> Set<Seq<char>> {
    Set::new(
        |name: Seq<char>|
            exists|i: int| 0 <= i < lines.len() && (#[trigger] line_names(lines[i])).contains(name),
    )
}

/// A set of requirement names. Adding a name twice changes nothing, the order
/// of additions is not remembered, and the empty name is never a member.
///
/// The names are kept in ascending byte order, so two sets with the same
/// members are stored alike.
#[derive(Debug)]
pub struct Requirements {
    names: Vec<String>,
}

impl View for Requirements {
    type V = Set<Seq<char>>;

    closed spec fn view(&self) -> Set<Seq<char>> {
        texts(self.names@).to_set()
    }
}

impl Requirements {
    /// The representation is sound: the stored names ascend strictly and
    /// none of them is empty. Every constructor establishes this and every
    /// method keeps it.
    pub closed spec fn wf(&self) -> bool {
        &&& strictly_ascending(texts(self.names@))
        &&& forall|i: int| 0 <= i < self.names@.len() ==> (#[trigger] self.names@[i])@.len() > 0
    }

    /// A sound set is finite and does not hold the empty name.
    pub proof fn law_members(&self)
        requires
            self.wf(),
        ensures
            self@.finite(),
            !self@.contains(Seq::<char>::empty()),
    {
        let q = texts(self.names@);
        lemma_ascending_len(q);
        if q.contains(Seq::<char>::empty()) {
            let k = choose|k: int| 0 <= k < q.len() && q[k] == Seq::<char>::empty();
            assert(self.names@[k]@.len() > 0);
        }
    }

    /// The empty set.
    pub fn new() -> (r: Requirements)
        ensures
            r.wf(),
            r@ == Set::<Seq<char>>::empty(),
    {
        let r = Requirements { names: Vec::new() };
        assert(r@ =~= Set::<Seq<char>>::empty());
        r
    }

    /// Number of members.
    pub fn len(&self) -> (n: usize)
        requires
            self.wf(),
        ensures
            self@.finite(),
            n == self@.len(),
    {
        proof {
            lemma_ascending_len(texts(self.names@));
        }
        self.names.len()
    }

    /// Whether the set has no member.
    pub fn is_empty(&self) -> (b: bool)
        requires
            self.wf(),
        ensures
            b == (self@ == Set::<Seq<char>>::empty()),
    {
        proof {
            lemma_ascending_len(texts(self.names@));
            if self.names@.len() > 0 {
                assert(texts(self.names@).contains(texts(self.names@)[0]));
            } else {
                assert(self@ =~= Set::<Seq<char>>::empty());
            }
        }
        self.names.len() == 0
    }

    /// Position of `name` in the stored order: the index of the first stored
    /// name that does not come before it, and whether that name is `name`.
    fn locate(&self, name: &str) -> (r: (usize, bool))
        requires
            self.wf(),
        ensures
            r.0 <= self.names@.len(),
            forall|k: int| 0 <= k < r.0 ==> name_lt(#[trigger] texts(self.names@)[k], name@),
            r.1 ==> r.0 < self.names@.len() && texts(self.names@)[r.0 as int] == name@,
            !r.1 ==> forall|k: int|
                r.0 <= k < self.names@.len() ==> name_lt(name@, #[trigger] texts(self.names@)[k]),
    {
        let ghost q = texts(self.names@);
        let mut i: usize = 0;
        while i < self.names.len()
            invariant
                q == texts(self.names@),
                strictly_ascending(q),
                i <= self.names@.len(),
                forall|k: int| 0 <= k < i ==> name_lt(#[trigger] q[k], name@),
            decreases self.names@.len() - i,
        {
            match rank(self.names[i].as_str(), name) {
                Rank::Before => {
                    i += 1;
                },
                Rank::Same => {
                    return (i, true);
                },
                Rank::After => {
                    proof {
                        assert forall|k: int| i <= k < self.names@.len() implies name_lt(
                            name@,
                            #[trigger] q[k],
                        ) by {
                            if k > i {
                                assert(name_lt(q[i as int], q[k]));
                                lemma_name_lt_transitive(name@, q[i as int], q[k]);
                            }
                        }
                    }
                    return (i, false);
                },
            }
        }
        (i, false)
    }

    /// Whether `name` is a member.
    pub fn contains(&self, name: &str) -> (b: bool)
        requires
            self.wf(),
        ensures
            b == self@.contains(name@),
    {
        let (i, found) = self.locate(name);
        proof {
            let q = texts(self.names@);
            if found {
                assert(q.contains(name@));
            } else if q.contains(name@) {
                let k = choose|k: int| 0 <= k < q.len() && q[k] == name@;
                lemma_name_lt_irreflexive(name@);
            }
        }
        found
    }

    /// Adds one name. Adding a member again, or adding the empty name, leaves
    /// the set as it was.
    pub fn add(&mut self, name: &str)
        requires
            old(self).wf(),
        ensures
            final(self).wf(),
            final(self)@ == with_name(old(self)@, name@),
    {
        if name.is_empty() {
            return ;
        }
        let (i, found) = self.locate(name);
        if found {
            proof {
                assert(texts(self.names@).contains(name@));
                assert(self@.insert(name@) =~= self@);
            }
            return ;
        }
        let ghost before = texts(self.names@);
        let owned = name.to_owned();
        self.names.insert(i, owned);
        proof {
            let after = texts(self.names@);
            assert(after =~= before.insert(i as int, name@));
            assert forall|a: int, b: int| 0 <= a < b < after.len() implies name_lt(
                #[trigger] after[a],
                #[trigger] after[b],
            ) by {
                let a0 = if a < i { a } else { a - 1 };
                let b0 = if b < i { b } else { b - 1 };
                if a != i && b != i {
                    assert(name_lt(before[a0], before[b0]));
                } else if a == i {
                    assert(after[b] == before[b0]);
                } else {
                    assert(after[a] == before[a0]);
                }
            }
            assert forall|e: Seq<char>| after.to_set().contains(e) == before.to_set().insert(
                name@,
            ).contains(e) by {
                if after.contains(e) {
                    let k = choose|k: int| 0 <= k < after.len() && after[k] == e;
                    if k < i {
                        assert(before[k] == e);
                    } else if k > i {
                        assert(before[k - 1] == e);
                    }
                }
                if before.contains(e) {
                    let k = choose|k: int| 0 <= k < before.len() && before[k] == e;
                    if k < i {
                        assert(after[k] == e);
                    } else {
                        assert(after[k + 1] == e);
                    }
                }
                if e == name@ {
                    assert(after[i as int] == e);
                }
            }
            assert(after.to_set() =~= before.to_set().insert(name@));
        }
    }
    /// The members, in ascending byte order.
    pub fn names(&self) -> (v: Vec<String>)
        requires
            self.wf(),
        ensures
            texts(v@) == sorted_members(self@),
    {
        let mut v: Vec<String> = Vec::new();
        let mut i: usize = 0;
        while i < self.names.len()
            invariant
                i <= self.names@.len(),
                texts(v@) == texts(self.names@).take(i as int),
            decreases self.names@.len() - i,
        {
            let ghost before = texts(v@);
            let name = self.names[i].clone();
            v.push(name);
            i += 1;
            assert(texts(v@) =~= before.push(self.names@[i - 1]@));
            assert(texts(v@) =~= texts(self.names@).take(i as int));
        }
        proof {
            assert(texts(self.names@).take(i as int) =~= texts(self.names@));
            lemma_sorted_members(self@, texts(self.names@));
        }
        v
    }

    /// The text of this set's manifest: one line for each member, in
    /// ascending order. An empty set has no manifest.
    pub fn manifest(&self) -> (contents: Option<String>)
        requires
            self.wf(),
        ensures
            contents is None <==> self@ == Set::<Seq<char>>::empty(),
            contents matches Some(text) ==> text@ == manifest_text(sorted_members(self@)),
    {
        if self.is_empty() {
            return None;
        }
        let ghost q = texts(self.names@);
        let mut text = String::new();
        let mut i: usize = 0;
        while i < self.names.len()
            invariant
                q == texts(self.names@),
                i <= self.names@.len(),
                text@ == manifest_text(q.take(i as int)),
            decreases self.names@.len() - i,
        {
            proof {
                reveal_strlit("\n");
                assert("\n"@ =~= seq!['\n']);
                lemma_manifest_text_push(q.take(i as int), q[i as int]);
                assert(q.take(i + 1) =~= q.take(i as int).push(q[i as int]));
            }
            text.append(self.names[i].as_str());
            text.append("\n");
            i += 1;
        }
        proof {
            assert(q.take(i as int) =~= q);
            lemma_sorted_members(self@, q);
        }
        Some(text)
    }

    /// The manifest of this set for the directory `dir`: the file
    /// `requirements.txt` in it, with one line for each member. An empty set
    /// has no manifest.
    ///
    /// The file is not written here. Whoever writes it must create it anew
    /// and fail if it is there already.
    pub fn write_in(&self, dir: &str) -> (file: Option<Manifest>)
        requires
            self.wf(),
        ensures
            file is None <==> self@ == Set::<Seq<char>>::empty(),
            file matches Some(m) ==> {
                &&& m@.path == manifest_path(dir@)
                &&& m@.contents == manifest_text(sorted_members(self@))
            },
    {
        match self.manifest() {
            Some(contents) => Some(Manifest::in_dir(dir, contents)),
            None => None,
        }
    }

    /// The message that is hashed for this set and `python`: the selector
    /// prefix, then the members in ascending byte order.
    pub fn message(&self, python: Option<&str>) -> (bytes: Vec<u8>)
        requires
            self.wf(),
        ensures
            bytes@ == fingerprint_message(self@, text_of(python)),
    {
        let mut bytes = selector_bytes(python);
        let ghost q = texts(self.names@);
        let mut i: usize = 0;
        while i < self.names.len()
            invariant
                q == texts(self.names@),
                i <= self.names@.len(),
                bytes@ == selector_prefix(text_of(python)) + joined(q.take(i as int)),
            decreases self.names@.len() - i,
        {
            append_bytes(&mut bytes, self.names[i].as_str().as_bytes());
            proof {
                let next = q.take(i + 1);
                assert(next.drop_last() =~= q.take(i as int));
                assert(next.last() == q[i as int]);
                assert(bytes@ =~= selector_prefix(text_of(python)) + joined(next));
            }
            i += 1;
        }
        proof {
            assert(q.take(i as int) =~= q);
            lemma_sorted_members(self@, q);
        }
        bytes
    }

    /// The fingerprint of this set and `python`: 56 lowercase hexadecimal
    /// digits that depend on the members and on the selector, not on the
    /// order in which the members were added.
    pub fn hash(&self, python: Option<&str>) -> (text: String)
        requires
            self.wf(),
        ensures
            text@ == fingerprint(self@, text_of(python)),
            text@.len() == 2 * DIGEST_LEN,
            forall|i: int| 0 <= i < text@.len() ==> hex_digits().contains(#[trigger] text@[i]),
    {
        let message = self.message(python);
        let digest = sha3_224_digest(&message);
        proof {
            assert forall|i: int| 0 <= i < 2 * DIGEST_LEN implies hex_digits().contains(
                #[trigger] crate::digest::hex_text(digest@)[i],
            ) by {
                lemma_hex_text_digits(digest@, i);
            }
        }
        encode_digest(&digest)
    }
    /// Adds every name of `names`; empty names are passed over.
    pub fn extend(&mut self, names: &Vec<String>)
        requires
            old(self).wf(),
        ensures
            final(self).wf(),
            final(self)@ == old(self)@.union(named(texts(names@))),
    {
        let ghost q = texts(names@);
        let mut i: usize = 0;
        while i < names.len()
            invariant
                q == texts(names@),
                i <= names@.len(),
                self.wf(),
                self@ == old(self)@.union(named(q.take(i as int))),
            decreases names@.len() - i,
        {
            let ghost before = self@;
            self.add(names[i].as_str());
            proof {
                let done = q.take(i as int);
                let next = q.take(i + 1);
                assert(next =~= done.push(q[i as int]));
                assert forall|e: Seq<char>| named(next).contains(e) == (named(done).contains(e) || (
                e.len() > 0 && e == q[i as int])) by {
                    if done.contains(e) {
                        let k = choose|k: int| 0 <= k < done.len() && done[k] == e;
                        assert(next[k] == e);
                    }
                    if e == q[i as int] {
                        assert(next[i as int] == e);
                    }
                    if next.contains(e) {
                        let k = choose|k: int| 0 <= k < next.len() && next[k] == e;
                        if k < i {
                            assert(done[k] == e);
                        }
                    }
                }
                assert(self@ =~= old(self)@.union(named(next)));
            }
            i += 1;
        }
        assert(q.take(i as int) =~= q);
    }

    /// Adds every module that the lines of a script ask for.
    pub fn parse_and_append(&mut self, lines: &Vec<String>)
        requires
            old(self).wf(),
        ensures
            final(self).wf(),
            final(self)@ == old(self)@.union(extracted(texts(lines@))),
    {
        let ghost q = texts(lines@);
        let mut i: usize = 0;
        while i < lines.len()
            invariant
                q == texts(lines@),
                i <= lines@.len(),
                self.wf(),
                self@ == old(self)@.union(extracted(q.take(i as int))),
            decreases lines@.len() - i,
        {
            let ghost before = self@;
            let found = parse_line_req(lines[i].as_str());
            match found {
                Some(modules) => {
                    self.extend(&modules);
                },
                None => {},
            }
            proof {
                let done = q.take(i as int);
                let next = q.take(i + 1);
                let here = line_names(q[i as int]);
                lemma_line_names(q[i as int]);
                assert(self@ =~= before.union(here.to_set()));
                assert forall|e: Seq<char>| extracted(next).contains(e) == (extracted(
                    done,
                ).contains(e) || here.contains(e)) by {
                    if extracted(done).contains(e) {
                        let k = choose|k: int|
                            0 <= k < done.len() && (#[trigger] line_names(done[k])).contains(e);
                        assert(next[k] == done[k]);
                    }
                    if here.contains(e) {
                        assert(next[i as int] == q[i as int]);
                    }
                    if extracted(next).contains(e) {
                        let k = choose|k: int|
                            0 <= k < next.len() && (#[trigger] line_names(next[k])).contains(e);
                        if k < i {
                            assert(done[k] == next[k]);
                        }
                    }
                }
                assert(self@ =~= old(self)@.union(extracted(next)));
            }
            i += 1;
        }
        assert(q.take(i as int) =~= q);
    }
}

/// The set of modules that the lines of a script ask for.
pub fn parse(lines: &Vec<String>) -> (r: Requirements)
    ensures
        r.wf(),
        r@ == extracted(texts(lines@)),
{
    let mut r = Requirements::new();
    r.parse_and_append(lines);
    assert(r@ =~= extracted(texts(lines@)));
    r
}

} // verus!
