//! Finding the pictures under a root directory.
//!
//! The search is a worklist of directories. The caller reads one directory at
//! a time, the one that the walker names, and hands its entries back; the
//! walker keeps the image files, queues the subdirectories and passes over
//! every directory that bears the name of the cache. When no directory is
//! left the pictures are handed out in ascending order.

use vstd::prelude::*;
use vstd::multiset::Multiset;
use crate::config::{cache_dir, cache_dir_name, lemma_cache_dir_name};
use crate::order::{ascending, lemma_ascending_unique, sort_paths, texts};
use crate::paths::{
    file_name_of, is_image_file, is_image_path, join, joined, last_segment,
};
use crate::text::{chars_of, lemma_last_index_is, matches_word};

verus! {

/// One entry of a directory, as the caller read it.
#[derive(Clone, Debug)]
pub struct DirEntry {
    /// The name of the entry inside its directory.
    pub name: String,
    /// Whether the entry is a directory.
    pub is_dir: bool,
}

/// What a `DirEntry` holds.
pub struct EntryView {
    pub name: Seq<char>,
    pub is_dir: bool,
}

impl View for DirEntry {
    type V = EntryView;

    open spec fn view(&self) -> EntryView {
        EntryView { name: self.name@, is_dir: self.is_dir }
    }
}

/// What each entry of `entries` holds.
pub open spec fn entry_views(entries: Seq<DirEntry>) -> Seq<EntryView> {
    Seq::new(entries.len(), |i: int| entries[i]@)
}

/// Whether `name` can be the name of an entry: one segment, not empty, and
/// neither `.` nor `..`.
pub open spec fn is_child_name(name: Seq<char>) -> bool {
    &&& name.len() > 0
    &&& forall|k: int| 0 <= k < name.len() ==> name[k] != '/'
    &&& name != seq!['.']
    &&& name != seq!['.', '.']
}

/// The state of a search: the directories still to be read, each relative to
/// the root, and the pictures found so far.
pub struct WalkState {
    pub pending: Seq<Seq<char>>,
    pub found: Seq<Seq<char>>,
}

/// The state before anything is read: the root itself is to be read.
pub open spec fn initial_state() -> WalkState {
    WalkState { pending: seq![Seq::<char>::empty()], found: Seq::empty() }
}

/// What one entry of the directory `dir` adds to the search. An entry whose
/// name is no child name adds nothing; a directory is queued unless it bears
/// the name of the cache; a file is kept if it is an image file.
pub open spec fn absorb_entry(state: WalkState, dir: Seq<char>, entry: EntryView) -> WalkState {
    let path = joined(dir, entry.name);
    if !is_child_name(entry.name) {
        state
    } else if entry.is_dir {
        if entry.name == cache_dir_name() {
            state
        } else {
            WalkState { pending: state.pending.push(path), found: state.found }
        }
    } else if is_image_path(path) {
        WalkState { pending: state.pending, found: state.found.push(path) }
    } else {
        state
    }
}

/// What the entries of the directory `dir` add to the search, one after the
/// other.
pub open spec fn absorb_entries(state: WalkState, dir: Seq<char>, entries: Seq<EntryView>)
    -> WalkState
    decreases entries.len(),
{
    if entries.len() == 0 {
        state
    } else {
        absorb_entry(absorb_entries(state, dir, entries.drop_last()), dir, entries.last())
    }
}

/// The state after the directory that was due has been read. A directory
/// that could not be read counts as empty.
pub open spec fn absorb_listing(state: WalkState, listing: Option<Seq<EntryView>>) -> WalkState {
    if state.pending.len() == 0 {
        state
    } else {
        let rest = WalkState { pending: state.pending.drop_last(), found: state.found };
        match listing {
            Some(entries) => absorb_entries(rest, state.pending.last(), entries),
            None => rest,
        }
    }
}

/// Whether the segment of `path` that starts at `i` is a directory with the
/// name of the cache.
pub open spec fn cache_segment_at(path: Seq<char>, i: int) -> bool {
    let n = cache_dir_name().len() as int;
    &&& 0 <= i
    &&& i + n < path.len()
    &&& (i == 0 || path[i - 1] == '/')
    &&& path.subrange(i, i + n) == cache_dir_name()
    &&& path[i + n] == '/'
}

/// Whether `path` leads through a directory with the name of the cache.
pub open spec fn inside_cache(path: Seq<char>) -> bool {
    exists|i: int| cache_segment_at(path, i)
}

/// Whether neither a directory still to be read nor a picture found lies in
/// a cache directory.
pub open spec fn cache_free(state: WalkState) -> bool {
    &&& forall|k: int|
        0 <= k < state.pending.len() ==> !inside_cache(#[trigger] state.pending[k] + seq!['/'])
    &&& forall|k: int| 0 <= k < state.found.len() ==> !inside_cache(#[trigger] state.found[k])
}

/// An entry of a directory outside the cache lies outside the cache, and so
/// does what is under it unless it bears the name of the cache itself.
pub proof fn lemma_child_outside_cache(dir: Seq<char>, name: Seq<char>)
    requires
        !inside_cache(dir + seq!['/']),
        is_child_name(name),
    ensures
        !inside_cache(joined(dir, name)),
        name != cache_dir_name() ==> !inside_cache(joined(dir, name) + seq!['/']),
{
    reveal_strlit("/");
    lemma_cache_dir_name();
    assert("/"@ =~= seq!['/']);
    let n = cache_dir_name().len() as int;
    let slashed = dir + seq!['/'];
    let path = joined(dir, name);
    let head: Seq<char> = if dir.len() == 0 {
        dir
    } else if dir.last() == '/' {
        dir
    } else {
        slashed
    };
    assert(path =~= head + name);
    let h = head.len() as int;
    assert(forall|k: int| 0 <= k < h ==> path[k] == slashed[k]);
    assert(forall|k: int| h <= k < path.len() ==> path[k] == name[k - h] && path[k] != '/');
    if inside_cache(path) {
        let i = choose|i: int| cache_segment_at(path, i);
        assert(i + n < h);
        assert(path.subrange(i, i + n) =~= slashed.subrange(i, i + n));
        assert(cache_segment_at(slashed, i));
    }
    let under = path + seq!['/'];
    if name != cache_dir_name() && inside_cache(under) {
        let i = choose|i: int| cache_segment_at(under, i);
        if i + n < path.len() {
            assert(under.subrange(i, i + n) =~= path.subrange(i, i + n));
            assert(cache_segment_at(path, i));
        } else {
            assert(i + n == path.len());
            let segment = under.subrange(i, i + n);
            if i < h {
                assert(head[h - 1] == '/');
                assert(segment[h - 1 - i] == path[h - 1]);
                assert(cache_dir_name()[h - 1 - i] == '/');
            } else {
                if i > h {
                    assert(under[i - 1] == path[i - 1]);
                }
                assert(i == h);
                assert(segment =~= name);
            }
        }
    }
}

/// What lies in the cache directory lies inside the cache: the thumbnail of
/// a relative path, seen from the root, leads through the cache directory.
pub proof fn lemma_thumbnails_inside_cache(relative: Seq<char>)
    requires
        relative.len() == 0 || relative[0] != '/',
    ensures
        inside_cache(joined(cache_dir_name(), relative)),
{
    reveal_strlit("/");
    lemma_cache_dir_name();
    let path = joined(cache_dir_name(), relative);
    assert(path =~= cache_dir_name() + seq!['/'] + relative);
    assert(path.subrange(0, 11) =~= cache_dir_name());
    assert(cache_segment_at(path, 0));
}

/// An entry is judged by its own name: under whatever directory it lies, the
/// name of its path is the name of the entry, so a file is a picture exactly
/// if the extension of its name says so.
pub proof fn lemma_child_keeps_its_name(dir: Seq<char>, name: Seq<char>)
    requires
        is_child_name(name),
    ensures
        file_name_of(joined(dir, name)) == Some(name),
        is_image_path(joined(dir, name)) == is_image_path(name),
{
    reveal_strlit("/");
    assert("/"@ =~= seq!['/']);
    let path = joined(dir, name);
    let head: Seq<char> = if dir.len() == 0 || dir.last() == '/' {
        dir
    } else {
        dir + seq!['/']
    };
    let h = head.len() as int;
    assert(path =~= head + name);
    lemma_last_index_is(path, '/', h - 1);
    assert(last_segment(path) =~= name);
    assert(path.subrange(h, path.len() as int) =~= name);
    lemma_last_index_is(name, '/', -1);
    assert(last_segment(name) =~= name);
    assert(name.subrange(0, name.len() as int) =~= name);
}

/// One more entry of a directory outside the cache leaves the search outside
/// the cache.
proof fn lemma_entry_keeps_cache_free(state: WalkState, dir: Seq<char>, entry: EntryView)
    requires
        cache_free(state),
        !inside_cache(dir + seq!['/']),
    ensures
        cache_free(absorb_entry(state, dir, entry)),
{
    if is_child_name(entry.name) {
        lemma_child_outside_cache(dir, entry.name);
    }
}

/// The entries of a directory outside the cache leave the search outside the
/// cache.
proof fn lemma_entries_keep_cache_free(state: WalkState, dir: Seq<char>, entries: Seq<EntryView>)
    requires
        cache_free(state),
        !inside_cache(dir + seq!['/']),
    ensures
        cache_free(absorb_entries(state, dir, entries)),
    decreases entries.len(),
{
    if entries.len() > 0 {
        lemma_entries_keep_cache_free(state, dir, entries.drop_last());
        lemma_entry_keeps_cache_free(
            absorb_entries(state, dir, entries.drop_last()),
            dir,
            entries.last(),
        );
    }
}

/// The search starts outside the cache.
pub proof fn lemma_initial_state_cache_free()
    ensures
        cache_free(initial_state()),
{
    lemma_cache_dir_name();
}

/// No step of the search leads into a cache directory: whatever the caller
/// reports of the directory that was due, no directory queued and no picture
/// found lies under a directory with the name of the cache.
pub proof fn lemma_absorb_keeps_cache_free(state: WalkState, listing: Option<Seq<EntryView>>)
    requires
        cache_free(state),
    ensures
        cache_free(absorb_listing(state, listing)),
{
    if state.pending.len() > 0 {
        let rest = WalkState { pending: state.pending.drop_last(), found: state.found };
        assert(cache_free(rest)) by {
            assert(forall|k: int|
                0 <= k < rest.pending.len() ==> rest.pending[k] == state.pending[k]);
        }
        if let Some(entries) = listing {
            lemma_entries_keep_cache_free(rest, state.pending.last(), entries);
        }
    }
}

/// The state in which nothing is due and nothing is found.
pub open spec fn empty_state() -> WalkState {
    WalkState { pending: Seq::empty(), found: Seq::empty() }
}

/// The pictures that one entry of `dir` adds: one or none.
pub open spec fn pictures_of(dir: Seq<char>, entry: EntryView) -> Multiset<Seq<char>> {
    absorb_entry(empty_state(), dir, entry).found.to_multiset()
}

/// The directories that one entry of `dir` adds: one or none.
pub open spec fn directories_of(dir: Seq<char>, entry: EntryView) -> Multiset<Seq<char>> {
    absorb_entry(empty_state(), dir, entry).pending.to_multiset()
}

/// All that the entries add, each by `share`.
pub open spec fn sum_of(entries: Seq<EntryView>, share: spec_fn(EntryView) -> Multiset<Seq<char>>)
    -> Multiset<Seq<char>>
    decreases entries.len(),
{
    if entries.len() == 0 {
        Multiset::empty()
    } else {
        sum_of(entries.drop_last(), share).add(share(entries.last()))
    }
}

/// Taking one entry out of a listing takes its share out of the sum.
proof fn lemma_sum_without(
    entries: Seq<EntryView>,
    share: spec_fn(EntryView) -> Multiset<Seq<char>>,
    i: int,
)
    requires
        0 <= i < entries.len(),
    ensures
        sum_of(entries, share) == sum_of(entries.remove(i), share).add(share(entries[i])),
    decreases entries.len(),
{
    broadcast use vstd::multiset::group_multiset_axioms;

    let rest = entries.drop_last();
    if i == entries.len() - 1 {
    } else {
        lemma_sum_without(rest, share, i);
        let without = entries.remove(i);
        assert(without.drop_last() =~= rest.remove(i));
    }
}

/// The sum over a listing depends on what the listing holds, not on its
/// order.
proof fn lemma_sum_order_free(
    first: Seq<EntryView>,
    second: Seq<EntryView>,
    share: spec_fn(EntryView) -> Multiset<Seq<char>>,
)
    requires
        first.to_multiset() == second.to_multiset(),
    ensures
        sum_of(first, share) == sum_of(second, share),
    decreases first.len(),
{
    broadcast use vstd::multiset::group_multiset_axioms;
    broadcast use vstd::seq_lib::group_to_multiset_ensures;

    vstd::seq_lib::to_multiset_len(first);
    vstd::seq_lib::to_multiset_len(second);
    if first.len() > 0 {
        let last = first.last();
        let rest = first.drop_last();
        vstd::seq_lib::to_multiset_contains(second, last);
        let i = choose|i: int| 0 <= i < second.len() && second[i] == last;
        vstd::seq_lib::to_multiset_remove(second, i);
        vstd::seq_lib::to_multiset_remove(first, first.len() - 1);
        lemma_sum_order_free(rest, second.remove(i), share);
        lemma_sum_without(second, share, i);
    }
}

/// What the entries of a directory add to a search is the sum of what each
/// of them adds.
proof fn lemma_absorb_entries_is_sum(state: WalkState, dir: Seq<char>, entries: Seq<EntryView>)
    ensures
        absorb_entries(state, dir, entries).found.to_multiset() == state.found.to_multiset().add(
            sum_of(entries, |e: EntryView| pictures_of(dir, e)),
        ),
        absorb_entries(state, dir, entries).pending.to_multiset()
            == state.pending.to_multiset().add(
            sum_of(entries, |e: EntryView| directories_of(dir, e)),
        ),
    decreases entries.len(),
{
    broadcast use vstd::multiset::group_multiset_axioms;
    broadcast use vstd::seq_lib::group_to_multiset_ensures;

    if entries.len() > 0 {
        let before = absorb_entries(state, dir, entries.drop_last());
        let entry = entries.last();
        let after = absorb_entry(before, dir, entry);
        let alone = absorb_entry(empty_state(), dir, entry);
        lemma_absorb_entries_is_sum(state, dir, entries.drop_last());
        vstd::seq_lib::lemma_multiset_commutative(before.found, alone.found);
        vstd::seq_lib::lemma_multiset_commutative(before.pending, alone.pending);
        assert(after.found.to_multiset() =~= state.found.to_multiset().add(
            sum_of(entries, |e: EntryView| pictures_of(dir, e)),
        ));
        assert(after.pending.to_multiset() =~= state.pending.to_multiset().add(
            sum_of(entries, |e: EntryView| directories_of(dir, e)),
        ));
    }
}

/// The order in which the entries of a directory are read leaves no trace in
/// what is found and what is queued: two listings that hold the same entries
/// add the same pictures and the same directories.
pub proof fn lemma_listing_order_free(
    state: WalkState,
    dir: Seq<char>,
    first: Seq<EntryView>,
    second: Seq<EntryView>,
)
    requires
        first.to_multiset() == second.to_multiset(),
    ensures
        absorb_entries(state, dir, first).found.to_multiset() == absorb_entries(
            state,
            dir,
            second,
        ).found.to_multiset(),
        absorb_entries(state, dir, first).pending.to_multiset() == absorb_entries(
            state,
            dir,
            second,
        ).pending.to_multiset(),
{
    lemma_absorb_entries_is_sum(state, dir, first);
    lemma_absorb_entries_is_sum(state, dir, second);
    lemma_sum_order_free(first, second, |e: EntryView| pictures_of(dir, e));
    lemma_sum_order_free(first, second, |e: EntryView| directories_of(dir, e));
}

/// Whether every path of `paths` names an image file.
pub open spec fn all_pictures(paths: Seq<Seq<char>>) -> bool {
    forall|k: int| 0 <= k < paths.len() ==> is_image_path(#[trigger] paths[k])
}

/// The entries of a directory add nothing but image files to what is found.
proof fn lemma_entries_keep_pictures(state: WalkState, dir: Seq<char>, entries: Seq<EntryView>)
    requires
        all_pictures(state.found),
    ensures
        all_pictures(absorb_entries(state, dir, entries).found),
    decreases entries.len(),
{
    if entries.len() > 0 {
        lemma_entries_keep_pictures(state, dir, entries.drop_last());
    }
}

/// No step of the search finds anything but image files: whatever the caller
/// reports of the directory that was due, every path found names an image
/// file.
pub proof fn lemma_absorb_keeps_pictures(state: WalkState, listing: Option<Seq<EntryView>>)
    requires
        all_pictures(state.found),
    ensures
        all_pictures(absorb_listing(state, listing).found),
{
    if state.pending.len() > 0 {
        let rest = WalkState { pending: state.pending.drop_last(), found: state.found };
        if let Some(entries) = listing {
            lemma_entries_keep_pictures(rest, state.pending.last(), entries);
        }
    }
}

/// Two searches that found the same pictures, in whatever order, hand out
/// the same listing.
pub proof fn lemma_same_pictures_same_listing(
    first: WalkState,
    second: WalkState,
    a: Seq<Seq<char>>,
    b: Seq<Seq<char>>,
)
    requires
        first.found.to_multiset() == second.found.to_multiset(),
        ascending(a),
        a.to_multiset() == first.found.to_multiset(),
        ascending(b),
        b.to_multiset() == second.found.to_multiset(),
    ensures
        a == b,
{
    lemma_ascending_unique(a, b);
}

/// Whether `chars` can be the name of an entry.
fn child_name(chars: &Vec<char>) -> (r: bool)
    ensures
        r == is_child_name(chars@),
{
    if chars.len() == 0 {
        return false;
    }
    if chars.len() == 1 && chars[0] == '.' {
        assert(chars@ =~= seq!['.']);
        return false;
    }
    if chars.len() == 2 && chars[0] == '.' && chars[1] == '.' {
        assert(chars@ =~= seq!['.', '.']);
        return false;
    }
    assert(chars@ != seq!['.'] && chars@ != seq!['.', '.']) by {
        assert(seq!['.'].len() == 1 && seq!['.'][0] == '.');
        assert(seq!['.', '.'].len() == 2 && seq!['.', '.'][0] == '.' && seq!['.', '.'][1] == '.');
    }
    let mut i: usize = 0;
    while i < chars.len()
        invariant
            i <= chars.len(),
            forall|k: int| 0 <= k < i ==> chars@[k] != '/',
        decreases chars.len() - i,
    {
        if chars[i] == '/' {
            return false;
        }
        i = i + 1;
    }
    true
}

/// A search for the pictures under a root directory.
pub struct Walker {
    pending: Vec<String>,
    found: Vec<String>,
}

impl View for Walker {
    type V = WalkState;

    closed spec fn view(&self) -> WalkState {
        WalkState { pending: texts(self.pending@), found: texts(self.found@) }
    }
}

impl Walker {
    #[verifier::type_invariant]
    spec fn pictures_outside_cache(self) -> bool {
        cache_free(self@) && all_pictures(self@.found)
    }

    /// A search that has read nothing yet: the root is due.
    pub fn new() -> (walker: Walker)
        ensures
            walker@ == initial_state(),
    {
        let mut pending: Vec<String> = Vec::new();
        pending.push(String::new());
        let found: Vec<String> = Vec::new();
        proof {
            lemma_initial_state_cache_free();
            assert(texts(pending@) =~= initial_state().pending);
            assert(texts(found@) =~= initial_state().found);
        }
        Walker { pending, found }
    }

    /// The directory that is due: the caller reads it, under the root, and
    /// hands its entries to `absorb`. `None` says that the search is over.
    pub fn next_directory(&self) -> (dir: Option<String>)
        ensures
            match dir {
                Some(d) => self@.pending.len() > 0 && d@ == self@.pending.last(),
                None => self@.pending.len() == 0,
            },
    {
        if self.pending.len() == 0 {
            None
        } else {
            Some(self.pending[self.pending.len() - 1].clone())
        }
    }

    /// Takes in what the caller found in the directory that was due: `None`
    /// where it could not be read, which counts as empty. With no directory
    /// due nothing changes.
    pub fn absorb(self, listing: Option<Vec<DirEntry>>) -> (next: Walker)
        ensures
            next@ == absorb_listing(
                self@,
                match listing {
                    Some(entries) => Some(entry_views(entries@)),
                    None => None,
                },
            ),
    {
        proof {
            use_type_invariant(&self);
        }
        let ghost before = self@;
        let mut pending = self.pending;
        let mut found = self.found;
        if pending.len() == 0 {
            return Walker { pending, found };
        }
        let dir = pending.pop().unwrap();
        let ghost rest = WalkState { pending: before.pending.drop_last(), found: before.found };
        proof {
            assert(texts(pending@) =~= rest.pending);
            lemma_absorb_keeps_cache_free(before, None);
            lemma_absorb_keeps_pictures(before, None);
            assert(!inside_cache(before.pending[before.pending.len() - 1] + seq!['/']));
        }
        let entries = match listing {
            Some(entries) => entries,
            None => {
                return Walker { pending, found };
            },
        };
        let ghost views = entry_views(entries@);
        let mut i: usize = 0;
        while i < entries.len()
            invariant
                i <= entries.len(),
                views == entry_views(entries@),
                !inside_cache(dir@ + seq!['/']),
                cache_free(rest),
                (WalkState { pending: texts(pending@), found: texts(found@) }) == absorb_entries(
                    rest,
                    dir@,
                    views.take(i as int),
                ),
            decreases entries.len() - i,
        {
            let ghost done = absorb_entries(rest, dir@, views.take(i as int));
            proof {
                assert(views.take(i + 1).drop_last() =~= views.take(i as int));
            }
            let entry = &entries[i];
            let name = chars_of(entry.name.as_str());
            if child_name(&name) {
                let path = join(dir.as_str(), entry.name.as_str());
                if entry.is_dir {
                    if !matches_word(&name, cache_dir()) {
                        pending.push(path);
                        assert(texts(pending@) =~= done.pending.push(path@));
                    }
                } else if is_image_file(path.as_str()) {
                    found.push(path);
                    assert(texts(found@) =~= done.found.push(path@));
                }
            }
            i = i + 1;
        }
        proof {
            assert(views.take(entries.len() as int) =~= views);
            lemma_absorb_keeps_cache_free(before, Some(views));
            lemma_absorb_keeps_pictures(before, Some(views));
        }
        Walker { pending, found }
    }

    /// The pictures found, in ascending order. Each of them names an image
    /// file, and none of them lies under a directory with the name of the
    /// cache.
    pub fn finish(self) -> (paths: Vec<String>)
        ensures
            ascending(texts(paths@)),
            texts(paths@).to_multiset() == self@.found.to_multiset(),
            forall|i: int| 0 <= i < paths.len() ==> is_image_path(#[trigger] paths@[i]@),
            forall|i: int| 0 <= i < paths.len() ==> !inside_cache(#[trigger] paths@[i]@),
    {
        proof {
            use_type_invariant(&self);
        }
        let ghost found = self@.found;
        let paths = sort_paths(self.found);
        proof {
            broadcast use vstd::seq_lib::to_multiset_contains;

            assert forall|i: int| 0 <= i < paths.len() implies is_image_path(
                #[trigger] paths@[i]@,
            ) && !inside_cache(paths@[i]@) by {
                let sorted = texts(paths@);
                assert(found.to_multiset().count(sorted[i]) > 0);
                assert(found.contains(sorted[i]));
            }
        }
        paths
    }
}

} // verus!
