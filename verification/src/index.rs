//! The index of the store: which files of its tree are entries, under which
//! ids, and in which order.

use vstd::prelude::*;

use crate::error::Error;
use crate::order::{is_stable_sort_of, sort_by_id};
use crate::password_info::{Info, Metadata, PasswordInfo};
use crate::text::chars_of;

verus! {

/// What the host found at one name in a directory of the store.
#[derive(Debug)]
pub enum StoreNode {
    /// A file, with its metadata where it could be read.
    File { name: String, metadata: Option<Metadata> },
    /// A directory, with what it holds where it could be read.
    Directory { name: String, entries: Option<Vec<StoreNode>> },
    /// Neither of the two.
    Other { name: String },
}

/// A file of this name is an entry: the name ends in `.gpg`, in upper or
/// lower case, and something stands before the dot.
pub open spec fn is_entry_name(name: Seq<char>) -> bool {
    let n = name.len() as int;
    &&& n >= 5
    &&& name[n - 4] == '.'
    &&& (name[n - 3] == 'g' || name[n - 3] == 'G')
    &&& (name[n - 2] == 'p' || name[n - 2] == 'P')
    &&& (name[n - 1] == 'g' || name[n - 1] == 'G')
}

/// The name of an entry's file without its suffix.
pub open spec fn stem(name: Seq<char>) -> Seq<char> {
    name.subrange(0, name.len() - 4)
}

/// The path of `name` inside the directory `dir`: the two joined by a
/// slash, or the name alone in the root, whose path is empty.
pub open spec fn join(dir: Seq<char>, name: Seq<char>) -> Seq<char> {
    if dir.len() == 0 {
        name
    } else {
        dir + seq!['/'] + name
    }
}

/// The entries that `node`, found in the directory `dir`, adds to the
/// index, in the order of the walk. A file adds itself where its name is
/// that of an entry and its metadata could be read. A directory adds what
/// is found in it, and nothing where it could not be read.
pub open spec fn node_entries(node: StoreNode, dir: Seq<char>) -> Seq<Info>
    decreases node, 0nat,
{
    match node {
        StoreNode::File { name, metadata } => if is_entry_name(name@) && metadata is Some {
            seq![Info { id: join(dir, stem(name@)), metadata: metadata->0 }]
        } else {
            Seq::empty()
        },
        StoreNode::Directory { name, entries } => match entries {
            Some(found) => listed_entries(found@, join(dir, name@), found@.len()),
            None => Seq::empty(),
        },
        StoreNode::Other { name } => Seq::empty(),
    }
}

/// The entries that the first `count` nodes of a directory's listing add.
pub open spec fn listed_entries(nodes: Seq<StoreNode>, dir: Seq<char>, count: nat) -> Seq<Info>
    decreases nodes, count,
{
    if count == 0 || count > nodes.len() {
        Seq::empty()
    } else {
        listed_entries(nodes, dir, (count - 1) as nat) + node_entries(nodes[count - 1], dir)
    }
}

/// What the first `count` nodes of a listing add depends on these nodes
/// alone.
pub proof fn lemma_listed_entries_of_prefix(nodes: Seq<StoreNode>, dir: Seq<char>, count: nat)
    requires
        count <= nodes.len(),
    ensures
        listed_entries(nodes.take(count as int), dir, count) == listed_entries(nodes, dir, count),
    decreases count,
{
    if count > 0 {
        let before = (count - 1) as nat;
        lemma_listed_entries_of_prefix(nodes, dir, before);
        lemma_listed_entries_of_prefix(nodes.take(count as int), dir, before);
        assert(nodes.take(count as int).take(before as int) =~= nodes.take(before as int));
    }
}

/// A listing adds what its parts add, one after the other.
pub proof fn lemma_listed_entries_of_parts(first: Seq<StoreNode>, second: Seq<StoreNode>, dir: Seq<char>)
    ensures
        listed_entries(first + second, dir, (first + second).len()) == listed_entries(
            first,
            dir,
            first.len(),
        ) + listed_entries(second, dir, second.len()),
    decreases second.len(),
{
    let all = first + second;
    if second.len() == 0 {
        assert(all =~= first);
        assert(listed_entries(second, dir, 0) =~= Seq::<Info>::empty());
        assert(listed_entries(first, dir, first.len()) + Seq::<Info>::empty() =~= listed_entries(
            first,
            dir,
            first.len(),
        ));
    } else {
        let shorter = second.drop_last();
        lemma_listed_entries_of_parts(first, shorter, dir);
        lemma_listed_entries_of_prefix(all, dir, (all.len() - 1) as nat);
        lemma_listed_entries_of_prefix(second, dir, (second.len() - 1) as nat);
        assert(all.take(all.len() - 1) =~= first + shorter);
        assert(second.take(second.len() - 1) =~= shorter);
        assert(all[all.len() - 1] == second[second.len() - 1]);
        assert(listed_entries(first, dir, first.len()) + (listed_entries(
            shorter,
            dir,
            shorter.len(),
        ) + node_entries(second.last(), dir)) =~= (listed_entries(first, dir, first.len())
            + listed_entries(shorter, dir, shorter.len())) + node_entries(second.last(), dir));
    }
}

/// A directory that could not be read costs its own entries only: the
/// index is that of the listing without it.
pub proof fn lemma_unreadable_directory_is_left_out(nodes: Seq<StoreNode>, dir: Seq<char>, at: int)
    requires
        0 <= at < nodes.len(),
        nodes[at] matches StoreNode::Directory { entries, .. } && entries is None,
    ensures
        listed_entries(nodes, dir, nodes.len()) == listed_entries(
            nodes.remove(at),
            dir,
            nodes.remove(at).len(),
        ),
{
    let before = nodes.take(at);
    let after = nodes.skip(at + 1);
    let one = seq![nodes[at]];
    assert(nodes =~= before + one + after);
    assert(nodes.remove(at) =~= before + after);
    lemma_listed_entries_of_parts(before + one, after, dir);
    lemma_listed_entries_of_parts(before, one, dir);
    lemma_listed_entries_of_parts(before, after, dir);
    assert(listed_entries(one, dir, 1) =~= listed_entries(one, dir, 0) + node_entries(one[0], dir));
    assert(listed_entries(one, dir, 1) =~= Seq::<Info>::empty());
    assert(listed_entries(before, dir, before.len()) + Seq::<Info>::empty() =~= listed_entries(
        before,
        dir,
        before.len(),
    ));
}

/// Whether a file of this name is an entry.
pub fn entry_name(name: &str) -> (entry: bool)
    ensures
        entry == is_entry_name(name@),
{
    let chars = chars_of(name);
    let n = chars.len();
    if n < 5 {
        return false;
    }
    let g = chars[n - 3];
    let p = chars[n - 2];
    let h = chars[n - 1];
    chars[n - 4] == '.' && (g == 'g' || g == 'G') && (p == 'p' || p == 'P') && (h == 'g' || h
        == 'G')
}

/// The views of `found`, in its order.
pub open spec fn infos(found: Seq<PasswordInfo>) -> Seq<Info> {
    found.map_values(|info: PasswordInfo| info@)
}

/// The path of `name` inside the directory `dir`.
pub fn join_path(dir: &str, name: &str) -> (path: String)
    ensures
        path@ == join(dir@, name@),
{
    if dir.unicode_len() == 0 {
        name.to_owned()
    } else {
        proof {
            reveal_strlit("/");
            assert("/"@ =~= seq!['/']);
        }
        dir.to_owned().concat("/").concat(name)
    }
}

/// Walks the listing `nodes` of the directory `dir` and adds its entries to
/// `found`, in the order of the walk.
pub fn collect(nodes: &Vec<StoreNode>, dir: &str, found: &mut Vec<PasswordInfo>)
    ensures
        infos(final(found)@) == infos(old(found)@) + listed_entries(nodes@, dir@, nodes@.len()),
    decreases nodes,
{
    let mut i: usize = 0;
    assert(infos(found@) =~= infos(found@) + listed_entries(nodes@, dir@, 0));
    while i < nodes.len()
        invariant
            i <= nodes@.len(),
            infos(found@) == infos(old(found)@) + listed_entries(nodes@, dir@, i as nat),
        decreases nodes@.len() - i,
    {
        let ghost before = infos(found@);
        let ghost so_far = listed_entries(nodes@, dir@, i as nat);
        let node = &nodes[i];
        match node {
            StoreNode::File { name, metadata } => {
                if entry_name(name.as_str()) {
                    match metadata {
                        Some(read) => {
                            let n = name.as_str().unicode_len();
                            let id = join_path(dir, name.as_str().substring_char(0, n - 4));
                            let info = PasswordInfo::new(id, *read);
                            assert(infos(found@.push(info)) =~= infos(found@).push(info@));
                            found.push(info);
                        },
                        None => {},
                    }
                }
            },
            StoreNode::Directory { name, entries } => {
                match entries {
                    Some(listing) => {
                        let inner = join_path(dir, name.as_str());
                        collect(listing, inner.as_str(), found);
                    },
                    None => {},
                }
            },
            StoreNode::Other { name } => {},
        }
        assert(infos(found@) =~= before + node_entries(nodes@[i as int], dir@));
        assert(infos(found@) =~= infos(old(found)@) + (so_far + node_entries(
            nodes@[i as int],
            dir@,
        )));
        i += 1;
    }
}

/// The entries in the listing of the store's directory, in the order of the
/// walk.
pub fn walk(listing: &Vec<StoreNode>) -> (found: Vec<PasswordInfo>)
    ensures
        infos(found@) == listed_entries(listing@, Seq::empty(), listing@.len()),
{
    let mut found: Vec<PasswordInfo> = Vec::new();
    assert(infos(found@) =~= Seq::empty());
    collect(listing, "", &mut found);
    proof {
        reveal_strlit("");
        assert(""@ =~= Seq::<char>::empty());
    }
    found
}

/// The index of the store, from the listing of its directory as the host
/// read it: the entries, sorted by id.
///
/// It fails only where the directory itself could not be read, with the
/// host's words as an `Io` error. What could not be read below it is left
/// out.
pub fn build(root: Result<Vec<StoreNode>, String>) -> (index: Result<Vec<PasswordInfo>, Error>)
    ensures
        match root {
            Ok(listing) => index matches Ok(entries) && is_stable_sort_of(
                infos(entries@),
                listed_entries(listing@, Seq::empty(), listing@.len()),
            ),
            Err(said) => index matches Err(Error::Io(reason)) && reason@ == said@,
        },
{
    match root {
        Ok(listing) => {
            let found = walk(&listing);
            Ok(sort_by_id(&found))
        },
        Err(said) => Err(Error::Io(said)),
    }
}

} // verus!
