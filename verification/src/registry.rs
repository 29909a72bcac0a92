//! The registry: which library names are known, where each one is hosted
//! and which ref it is pinned to.
//!
//! A registry is read from a plain-text manifest, one entry per line:
//!
//! ```text
//! name[@version] > url
//! ```
//!
//! A line that does not split into exactly two parts at `" > "` is no
//! entry and is passed over.

use crate::text::{
    find_char, find_pattern, first_occurrence, line_bounds, lines, run_before, slice_to_string,
    to_chars, trim, trim_bounds,
};
use vstd::prelude::*;

verus! {

/// One library known to the registry.
#[derive(Debug, PartialEq, Eq)]
pub struct RegistryEntry {
    /// The name by which source modules refer to the library.
    pub name: String,
    /// The ref to check out after cloning, if the library is pinned.
    pub version: Option<String>,
    /// Where the library is cloned from.
    pub source_url: String,
}

/// The mathematical value of a [`RegistryEntry`].
pub struct EntryView {
    pub name: Seq<char>,
    pub version: Option<Seq<char>>,
    pub source_url: Seq<char>,
}

impl View for RegistryEntry {
    type V = EntryView;

    open spec fn view(&self) -> EntryView {
        EntryView {
            name: self.name@,
            version: match self.version {
                Some(v) => Some(v@),
                None => None,
            },
            source_url: self.source_url@,
        }
    }
}

impl DeepView for RegistryEntry {
    type V = EntryView;

    open spec fn deep_view(&self) -> EntryView {
        self@
    }
}

impl Clone for RegistryEntry {
    fn clone(&self) -> (r: Self)
        ensures
            r@ == self@,
    {
        RegistryEntry {
            name: self.name.clone(),
            version: match &self.version {
                Some(v) => Some(v.clone()),
                None => None,
            },
            source_url: self.source_url.clone(),
        }
    }
}

impl RegistryEntry {
    /// An entry without a version pin.
    pub fn unpinned(name: &str, source_url: &str) -> (r: Self)
        ensures
            r@ == (EntryView { name: name@, version: None, source_url: source_url@ }),
    {
        RegistryEntry {
            name: String::from_str(name),
            version: None,
            source_url: String::from_str(source_url),
        }
    }

    /// An entry pinned to the ref `version`.
    pub fn pinned(name: &str, version: &str, source_url: &str) -> (r: Self)
        ensures
            r@ == (EntryView { name: name@, version: Some(version@), source_url: source_url@ }),
    {
        RegistryEntry {
            name: String::from_str(name),
            version: Some(String::from_str(version)),
            source_url: String::from_str(source_url),
        }
    }
}

/// The text that parts a manifest line into what is named and where it is
/// hosted.
pub open spec fn separator() -> Seq<char> {
    " > "@
}

/// What a version pin is read from: the text between the first `@` of the
/// left part and the next one (or the end), as it stands.
pub open spec fn pin_text(left: Seq<char>) -> Seq<char> {
    let at = run_before(left, '@');
    if at < left.len() {
        let rest = left.skip(at as int + 1);
        rest.take(run_before(rest, '@') as int)
    } else {
        Seq::empty()
    }
}

/// The entry that one manifest line declares, if it declares one.
///
/// The line must hold the separator exactly once, counted from the left
/// without overlap. The name is what stands before the first `@` of the
/// left part, trimmed; an empty pin is no pin; the URL is the right part,
/// trimmed.
pub open spec fn parse_line(line: Seq<char>) -> Option<EntryView> {
    match first_occurrence(line, separator()) {
        None => None,
        Some(i) => {
            let left = line.take(i as int);
            let right = line.skip(i as int + separator().len());
            if first_occurrence(right, separator()) is Some {
                None
            } else {
                let pin = pin_text(left);
                Some(
                    EntryView {
                        name: trim(left.take(run_before(left, '@') as int)),
                        version: if pin.len() > 0 {
                            Some(pin)
                        } else {
                            None
                        },
                        source_url: trim(right),
                    },
                )
            }
        },
    }
}

/// The entries that a list of manifest lines declares, in order.
pub open spec fn manifest_entries(ls: Seq<Seq<char>>) -> Seq<EntryView>
    decreases ls.len(),
{
    if ls.len() == 0 {
        Seq::empty()
    } else {
        let before = manifest_entries(ls.drop_last());
        match parse_line(ls.last()) {
            Some(e) => before.push(e),
            None => before,
        }
    }
}

/// The mapping that a list of entries stands for: each entry is filed
/// under its name, and of two entries with one name the later stays.
pub open spec fn registry_of(es: Seq<EntryView>) -> Map<Seq<char>, EntryView>
    decreases es.len(),
{
    if es.len() == 0 {
        Map::empty()
    } else {
        registry_of(es.drop_last()).insert(es.last().name, es.last())
    }
}

/// The mapping that a manifest text stands for.
pub open spec fn manifest_registry(text: Seq<char>) -> Map<Seq<char>, EntryView> {
    registry_of(manifest_entries(lines(text)))
}

/// No name occurs twice in `es`.
pub open spec fn names_unique(es: Seq<EntryView>) -> bool {
    forall|i: int, j: int| 0 <= i < j < es.len() ==> es[i].name != es[j].name
}

/// An entry is filed under its own name, and a name is known exactly if
/// some entry bears it.
pub proof fn lemma_registry_of_keys(es: Seq<EntryView>)
    ensures
        forall|k: Seq<char>| #[trigger]
            registry_of(es).dom().contains(k) <==> exists|i: int|
                0 <= i < es.len() && #[trigger] es[i].name == k,
        forall|k: Seq<char>| #[trigger]
            registry_of(es).dom().contains(k) ==> registry_of(es)[k].name == k,
    decreases es.len(),
{
    if es.len() > 0 {
        let front = es.drop_last();
        lemma_registry_of_keys(front);
        assert forall|k: Seq<char>| #[trigger]
            registry_of(es).dom().contains(k) implies exists|i: int|
            0 <= i < es.len() && #[trigger] es[i].name == k by {
            if k == es.last().name {
                assert(es[es.len() - 1].name == k);
            } else {
                let i = choose|i: int| 0 <= i < front.len() && #[trigger] front[i].name == k;
                assert(es[i].name == k);
            }
        }
        assert forall|k: Seq<char>|
            (exists|i: int|
                0 <= i < es.len() && #[trigger] es[i].name == k) implies #[trigger] registry_of(
            es,
        ).dom().contains(k) by {
            let i = choose|i: int| 0 <= i < es.len() && #[trigger] es[i].name == k;
            if i < es.len() - 1 {
                assert(front[i].name == k);
            }
        }
    }
}

/// The last entry of a name stays: a name is mapped to the entry that
/// bears it and that no later entry of the same name follows.
pub proof fn law_last_entry_of_a_name_stays(es: Seq<EntryView>, i: int)
    requires
        0 <= i < es.len(),
        forall|j: int| i < j < es.len() ==> es[j].name != es[i].name,
    ensures
        registry_of(es).dom().contains(es[i].name),
        registry_of(es)[es[i].name] == es[i],
    decreases es.len(),
{
    let front = es.drop_last();
    if i < es.len() - 1 {
        assert forall|j: int| i < j < front.len() implies front[j].name != front[i].name by {
            assert(front[j] == es[j] && front[i] == es[i]);
        }
        law_last_entry_of_a_name_stays(front, i);
        assert(front[i] == es[i]);
        assert(es[es.len() - 1].name != es[i].name);
    }
}

/// With unique names, to put a new entry in the place of the one that
/// bears its name is to file it under that name.
pub proof fn lemma_registry_of_update(es: Seq<EntryView>, i: int, e: EntryView)
    requires
        names_unique(es),
        0 <= i < es.len(),
        es[i].name == e.name,
    ensures
        registry_of(es.update(i, e)) == registry_of(es).insert(e.name, e),
    decreases es.len(),
{
    let front = es.drop_last();
    let changed = es.update(i, e);
    if i == es.len() - 1 {
        assert(changed.drop_last() =~= front);
        assert(registry_of(changed) =~= registry_of(es).insert(e.name, e));
    } else {
        assert(names_unique(front)) by {
            assert forall|a: int, b: int| 0 <= a < b < front.len() implies front[a].name
                != front[b].name by {
                assert(front[a] == es[a] && front[b] == es[b]);
            }
        }
        assert(front[i] == es[i]);
        lemma_registry_of_update(front, i, e);
        assert(changed.drop_last() =~= front.update(i, e));
        assert(changed.last() == es.last());
        assert(es[i].name != es[es.len() - 1].name);
        assert(registry_of(changed) =~= registry_of(es).insert(e.name, e));
    }
}

/// A registry read entry after entry holds, for each name, the last entry
/// that bore it.
pub proof fn lemma_registry_of_push(es: Seq<EntryView>, e: EntryView)
    ensures
        registry_of(es.push(e)) == registry_of(es).insert(e.name, e),
{
    assert(es.push(e).drop_last() =~= es);
}

/// To read one list of entries after another is to let the second list
/// override the first wherever a name is in both.
pub proof fn law_later_list_overrides(a: Seq<EntryView>, b: Seq<EntryView>)
    ensures
        registry_of(a + b) == registry_of(a).union_prefer_right(registry_of(b)),
    decreases b.len(),
{
    if b.len() == 0 {
        assert(a + b =~= a);
        assert(registry_of(a).union_prefer_right(registry_of(b)) =~= registry_of(a));
    } else {
        let front = b.drop_last();
        law_later_list_overrides(a, front);
        assert((a + b).drop_last() =~= a + front);
        assert((a + b).last() == b.last());
        assert(registry_of(a + b) =~= registry_of(a).union_prefer_right(registry_of(b)));
    }
}

/// The known libraries, each filed under its name.
///
/// No two entries of a registry bear the same name: an entry that is put in
/// under a name already in use takes the place of the older one.
#[derive(Debug)]
pub struct Registry {
    entries: Vec<RegistryEntry>,
}

impl View for Registry {
    type V = Map<Seq<char>, EntryView>;

    closed spec fn view(&self) -> Map<Seq<char>, EntryView> {
        registry_of(self.entries.deep_view())
    }
}

impl Registry {
    #[verifier::type_invariant]
    spec fn names_differ(&self) -> bool {
        forall|i: int, j: int|
            0 <= i < j < self.entries@.len() ==> self.entries@[i].name@ != self.entries@[j].name@
    }

    /// Every name is filed with an entry that bears it.
    pub proof fn law_filed_under_own_name(&self)
        ensures
            forall|k: Seq<char>| #[trigger] self@.dom().contains(k) ==> self@[k].name == k,
            self@.dom().finite(),
    {
        lemma_registry_of_keys(self.entries.deep_view());
        lemma_registry_of_finite(self.entries.deep_view());
    }

    /// A registry that knows no library.
    pub fn new() -> (r: Self)
        ensures
            r@ == Map::<Seq<char>, EntryView>::empty(),
    {
        Registry { entries: Vec::new() }
    }

    /// The number of libraries known.
    pub fn len(&self) -> (n: usize)
        ensures
            n == self@.dom().len(),
    {
        proof {
            use_type_invariant(self);
            lemma_registry_of_len(self.entries.deep_view());
        }
        self.entries.len()
    }

    /// Where in `entries` the name stands.
    fn position(&self, name: &str) -> (r: Option<usize>)
        ensures
            match r {
                Some(i) => i < self.entries@.len() && self.entries@[i as int].name@ == name@,
                None => forall|i: int|
                    0 <= i < self.entries@.len() ==> self.entries@[i].name@ != name@,
            },
    {
        let wanted = String::from_str(name);
        let mut i: usize = 0;
        while i < self.entries.len()
            invariant
                i <= self.entries@.len(),
                wanted@ == name@,
                forall|j: int| 0 <= j < i ==> self.entries@[j].name@ != name@,
            decreases self.entries@.len() - i,
        {
            if self.entries[i].name == wanted {
                return Some(i);
            }
            i += 1;
        }
        None
    }

    /// The entry filed under `name`, if the name is known.
    pub fn get(&self, name: &str) -> (r: Option<&RegistryEntry>)
        ensures
            match r {
                Some(e) => self@.dom().contains(name@) && self@[name@] == e@,
                None => !self@.dom().contains(name@),
            },
    {
        let found = self.position(name);
        proof {
            use_type_invariant(self);
            let es = self.entries.deep_view();
            lemma_registry_of_keys(es);
            match found {
                Some(i) => {
                    law_last_entry_of_a_name_stays(es, i as int);
                },
                None => {
                    if registry_of(es).dom().contains(name@) {
                        let i = choose|i: int| 0 <= i < es.len() && #[trigger] es[i].name == name@;
                        assert(self.entries@[i].name@ == name@);
                    }
                },
            }
        }
        match found {
            Some(i) => Some(&self.entries[i]),
            None => None,
        }
    }

    /// Whether `name` is known.
    pub fn contains(&self, name: &str) -> (b: bool)
        ensures
            b == self@.dom().contains(name@),
    {
        self.get(name).is_some()
    }

    /// Files `entry` under its name, in the place of any older entry of
    /// that name.
    pub fn insert(&mut self, entry: RegistryEntry)
        ensures
            final(self)@ == old(self)@.insert(entry@.name, entry@),
    {
        let found = self.position(entry.name.as_str());
        let ghost before = self.entries.deep_view();
        proof {
            use_type_invariant(&*self);
        }
        let mut entries: Vec<RegistryEntry> = Vec::new();
        core::mem::swap(&mut self.entries, &mut entries);
        match found {
            Some(i) => {
                entries.set(i, entry);
                proof {
                    assert(entries.deep_view() =~= before.update(i as int, entry@));
                    lemma_registry_of_update(before, i as int, entry@);
                }
            },
            None => {
                entries.push(entry);
                proof {
                    assert(entries.deep_view() =~= before.push(entry@));
                    lemma_registry_of_push(before, entry@);
                }
            },
        }
        self.entries = entries;
    }

    /// Files every entry that the manifest text declares, line by line.
    /// Whatever the manifest names overrides what was known of that name
    /// before.
    pub fn merge_manifest(&mut self, manifest: &str)
        ensures
            final(self)@ == old(self)@.union_prefer_right(manifest_registry(manifest@)),
    {
        let v = to_chars(manifest);
        let sep = to_chars(" > ");
        let n = v.len();
        let ghost all = lines(v@);
        let ghost done: int = 0;
        let ghost start = self@;
        let mut pos: usize = 0;
        proof {
            assert(v@.subrange(0, n as int) =~= v@);
            assert(all.take(0) + all =~= all);
            assert(start.union_prefer_right(registry_of(manifest_entries(all.take(0))))
                =~= start);
        }
        while pos < n
            invariant
                n == v.len(),
                v@ == manifest@,
                sep@ == separator(),
                pos <= n,
                all == lines(v@),
                0 <= done <= all.len(),
                all == all.take(done) + lines(v@.subrange(pos as int, n as int)),
                self@ == start.union_prefer_right(
                    registry_of(manifest_entries(all.take(done))),
                ),
            decreases n - pos,
        {
            let (end, next) = line_bounds(&v, pos);
            let ghost line = v@.subrange(pos as int, end as int);
            let ghost rest = lines(v@.subrange(next as int, n as int));
            let ghost parsed = manifest_entries(all.take(done));
            proof {
                assert(all =~= all.take(done + 1) + rest);
                assert(all.take(done + 1).drop_last() =~= all.take(done));
                assert(all.take(done + 1).last() == line);
            }
            match parse_entry(manifest, &v, pos, end, &sep) {
                Some(entry) => {
                    self.insert(entry);
                    proof {
                        lemma_registry_of_push(parsed, entry@);
                        assert(self@ =~= start.union_prefer_right(
                            registry_of(parsed.push(entry@)),
                        ));
                    }
                },
                None => {},
            }
            proof {
                done = done + 1;
            }
            pos = next;
        }
        proof {
            assert(lines(v@.subrange(n as int, n as int)) =~= Seq::<Seq<char>>::empty());
            assert(all.take(done) =~= all);
        }
    }

    /// The registry that a list of entries stands for.
    pub fn from_entries(entries: &Vec<RegistryEntry>) -> (r: Self)
        ensures
            r@ == registry_of(entries.deep_view()),
    {
        let mut r = Registry::new();
        let ghost all = entries.deep_view();
        let mut i: usize = 0;
        while i < entries.len()
            invariant
                i <= entries.len(),
                all == entries.deep_view(),
                r@ == registry_of(all.take(i as int)),
            decreases entries.len() - i,
        {
            let e = entries[i].clone();
            r.insert(e);
            proof {
                lemma_registry_of_push(all.take(i as int), all[i as int]);
                assert(all.take(i as int).push(all[i as int]) =~= all.take(i + 1));
            }
            i += 1;
        }
        proof {
            assert(all.take(i as int) =~= all);
        }
        r
    }

    /// The registry that stands when `fallback` is known beforehand and
    /// the manifest text is read on top of it: an entry of the manifest
    /// overrides the fallback entry of the same name.
    pub fn load(manifest: &str, fallback: &Vec<RegistryEntry>) -> (r: Self)
        ensures
            r@ == registry_of(fallback.deep_view()).union_prefer_right(
                manifest_registry(manifest@),
            ),
    {
        let mut r = Registry::from_entries(fallback);
        r.merge_manifest(manifest);
        r
    }
}

/// A registry built from finitely many entries knows finitely many names.
pub proof fn lemma_registry_of_finite(es: Seq<EntryView>)
    ensures
        registry_of(es).dom().finite(),
    decreases es.len(),
{
    if es.len() > 0 {
        lemma_registry_of_finite(es.drop_last());
    }
}

/// With unique names, a registry knows as many names as it has entries.
pub proof fn lemma_registry_of_len(es: Seq<EntryView>)
    requires
        names_unique(es),
    ensures
        registry_of(es).dom().finite(),
        registry_of(es).dom().len() == es.len(),
    decreases es.len(),
{
    lemma_registry_of_finite(es);
    if es.len() > 0 {
        let front = es.drop_last();
        assert(names_unique(front)) by {
            assert forall|a: int, b: int| 0 <= a < b < front.len() implies front[a].name
                != front[b].name by {
                assert(front[a] == es[a] && front[b] == es[b]);
            }
        }
        lemma_registry_of_len(front);
        lemma_registry_of_keys(front);
        if registry_of(front).dom().contains(es.last().name) {
            let i = choose|i: int| 0 <= i < front.len() && #[trigger] front[i].name == es.last().name;
            assert(es[i].name == es[es.len() - 1].name);
        }
    }
}

/// Reads the manifest line `lo..hi` of `v`, the characters of `s`; `sep`
/// holds the separator.
fn parse_entry(s: &str, v: &Vec<char>, lo: usize, hi: usize, sep: &Vec<char>) -> (r: Option<
    RegistryEntry,
>)
    requires
        v@ == s@,
        lo <= hi <= v.len(),
        sep@ == separator(),
    ensures
        r.deep_view() == parse_line(v@.subrange(lo as int, hi as int)),
{
    let ghost line = v@.subrange(lo as int, hi as int);
    let split = match find_pattern(v, lo, hi, sep) {
        None => { return None; },
        Some(i) => i,
    };
    let right_lo = split + sep.len();
    let ghost left = line.take(split - lo);
    let ghost right = line.skip(split - lo + sep@.len());
    proof {
        assert(left =~= v@.subrange(lo as int, split as int));
        assert(right =~= v@.subrange(right_lo as int, hi as int));
    }
    if find_pattern(v, right_lo, hi, sep).is_some() {
        return None;
    }
    let at = find_char(v, lo, split, '@');
    let (name_lo, name_hi) = trim_bounds(v, lo, at);
    proof {
        assert(left.take(at - lo) =~= v@.subrange(lo as int, at as int));
    }
    let name = slice_to_string(s, v, name_lo, name_hi);
    let version = if at < split {
        let pin_hi = find_char(v, at + 1, split, '@');
        proof {
            let rest = left.skip(at - lo + 1);
            assert(rest =~= v@.subrange(at + 1, split as int));
            assert(rest.take(pin_hi - (at + 1)) =~= v@.subrange(at + 1, pin_hi as int));
        }
        if pin_hi > at + 1 {
            Some(slice_to_string(s, v, at + 1, pin_hi))
        } else {
            None
        }
    } else {
        None
    };
    let (url_lo, url_hi) = trim_bounds(v, right_lo, hi);
    let source_url = slice_to_string(s, v, url_lo, url_hi);
    Some(RegistryEntry { name, version, source_url })
}

} // verus!
