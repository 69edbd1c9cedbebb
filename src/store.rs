use vstd::prelude::*;

use crate::assoc::{opt_lookup, opt_text, pairs_map, strings_of};

verus! {

/// A directory as the list of its path components, the filesystem root
/// being the empty list.
pub type DirModel = Seq<Seq<char>>;

/// Every setting of a store, keyed by owning directory and setting name.
pub type StoreModel = Map<(DirModel, Seq<char>), Seq<char>>;

/// One setting owned by one directory.
#[derive(Debug, Clone, PartialEq, Eq)]
pub struct ScopedSetting {
    pub dir: Vec<String>,
    pub key: String,
    pub value: String,
}

/// The settings that a list of entries stands for: a later entry overrides
/// an earlier one for the same directory and key.
pub open spec fn scoped_map(s: Seq<ScopedSetting>) -> StoreModel
    decreases s.len(),
{
    if s.len() == 0 {
        Map::empty()
    } else {
        scoped_map(s.drop_last()).insert((strings_of(s.last().dir@), s.last().key@), s.last().value@)
    }
}

/// The value of `key` as seen from `pwd`, looking only at the first
/// `levels` directories of its ancestor chain (the root being the first):
/// the deepest of them that defines `key` wins.
pub open spec fn resolve_upto(m: StoreModel, pwd: DirModel, levels: nat, key: Seq<char>) -> Option<Seq<char>>
    decreases levels,
{
    if levels == 0 {
        None
    } else if m.contains_key((pwd.take(levels - 1), key)) {
        Some(m[(pwd.take(levels - 1), key)])
    } else {
        resolve_upto(m, pwd, (levels - 1) as nat, key)
    }
}

/// The value of `key` in effect in `pwd`: that of the closest directory of
/// the chain from the root down to `pwd` that defines it.
pub open spec fn resolve(m: StoreModel, pwd: DirModel, key: Seq<char>) -> Option<Seq<char>> {
    resolve_upto(m, pwd, pwd.len() + 1, key)
}

/// All settings in effect in `pwd`.
pub open spec fn resolve_map(m: StoreModel, pwd: DirModel) -> Map<Seq<char>, Seq<char>> {
    Map::new(|k: Seq<char>| resolve(m, pwd, k) is Some, |k: Seq<char>| resolve(m, pwd, k).unwrap())
}

/// Settings keyed by directory, read through the ancestry of a current
/// directory.
#[derive(Debug)]
pub struct SettingsStore {
    entries: Vec<ScopedSetting>,
}

impl View for SettingsStore {
    type V = StoreModel;

    closed spec fn view(&self) -> StoreModel {
        scoped_map(self.entries@)
    }
}

/// Whether `dir` is the directory made of the first `len` components of `pwd`.
fn is_prefix_dir(dir: &Vec<String>, pwd: &Vec<String>, len: usize) -> (r: bool)
    requires
        len <= pwd.len(),
    ensures
        r == (strings_of(dir@) == strings_of(pwd@).take(len as int)),
{
    if dir.len() != len {
        assert(strings_of(dir@).len() != strings_of(pwd@).take(len as int).len());
        return false;
    }
    let mut i: usize = 0;
    while i < len
        invariant
            i <= len,
            len == dir.len(),
            len <= pwd.len(),
            forall|j: int| 0 <= j < i ==> dir@[j]@ == pwd@[j]@,
        decreases len - i,
    {
        if dir[i] != pwd[i] {
            assert(strings_of(dir@)[i as int] != strings_of(pwd@).take(len as int)[i as int]);
            return false;
        }
        i = i + 1;
    }
    assert(strings_of(dir@) =~= strings_of(pwd@).take(len as int));
    true
}

impl SettingsStore {
    /// A store without settings.
    pub fn new() -> (r: SettingsStore)
        ensures
            r@ == Map::<(DirModel, Seq<char>), Seq<char>>::empty(),
    {
        SettingsStore { entries: Vec::new() }
    }

    /// The entries that make up the store, oldest first; a later entry
    /// overrides an earlier one for the same directory and key.
    pub fn entries(&self) -> (r: &Vec<ScopedSetting>)
        ensures
            scoped_map(r@) == self@,
    {
        &self.entries
    }

    /// The value of `key` defined by the directory made of the first `len`
    /// components of `pwd`, if it defines one.
    fn lookup_at(&self, pwd: &Vec<String>, len: usize, key: &String) -> (r: Option<String>)
        requires
            len <= pwd.len(),
        ensures
            opt_text(r) == (if self@.contains_key((strings_of(pwd@).take(len as int), key@)) {
                Some(self@[(strings_of(pwd@).take(len as int), key@)])
            } else {
                None::<Seq<char>>
            }),
    {
        let ghost d = strings_of(pwd@).take(len as int);
        let mut found: Option<String> = None;
        let mut i: usize = 0;
        while i < self.entries.len()
            invariant
                i <= self.entries.len(),
                len <= pwd.len(),
                d == strings_of(pwd@).take(len as int),
                opt_text(found) == (if scoped_map(self.entries@.take(i as int)).contains_key((d, key@)) {
                    Some(scoped_map(self.entries@.take(i as int))[(d, key@)])
                } else {
                    None::<Seq<char>>
                }),
            decreases self.entries.len() - i,
        {
            assert(self.entries@.take(i + 1).drop_last() =~= self.entries@.take(i as int));
            let e = &self.entries[i];
            if e.key == *key && is_prefix_dir(&e.dir, pwd, len) {
                found = Some(e.value.clone());
            }
            i = i + 1;
        }
        assert(self.entries@.take(self.entries.len() as int) =~= self.entries@);
        found
    }

    /// The value of `key` in effect in `pwd`: the closest directory from
    /// `pwd` up to the root that defines it gives it.
    pub fn resolve_one(&self, pwd: &Vec<String>, key: &String) -> (r: Option<String>)
        ensures
            opt_text(r) == resolve(self@, strings_of(pwd@), key@),
    {
        let ghost p = strings_of(pwd@);
        let mut len: usize = pwd.len();
        loop
            invariant
                len <= pwd.len(),
                p == strings_of(pwd@),
                resolve(self@, p, key@) == resolve_upto(self@, p, (len + 1) as nat, key@),
            decreases len,
        {
            let found = self.lookup_at(pwd, len, key);
            if found.is_some() {
                return found;
            }
            if len == 0 {
                assert(resolve_upto(self@, p, 0, key@) is None);
                return None;
            }
            len = len - 1;
        }
    }

    /// Lays the settings that the directory made of the first `len`
    /// components of `pwd` defines over `acc`.
    fn overlay_level(&self, acc: &mut Vec<(String, String)>, pwd: &Vec<String>, len: usize)
        requires
            len <= pwd.len(),
        ensures
            forall|k: Seq<char>|
                #![trigger opt_lookup(pairs_map(final(acc)@), k)]
                opt_lookup(pairs_map(final(acc)@), k) == (if self@.contains_key((strings_of(pwd@).take(len as int), k)) {
                    Some(self@[(strings_of(pwd@).take(len as int), k)])
                } else {
                    opt_lookup(pairs_map(old(acc)@), k)
                }),
    {
        let ghost d = strings_of(pwd@).take(len as int);
        let ghost start = pairs_map(acc@);
        let mut i: usize = 0;
        while i < self.entries.len()
            invariant
                i <= self.entries.len(),
                len <= pwd.len(),
                d == strings_of(pwd@).take(len as int),
                forall|k: Seq<char>|
                    #![trigger opt_lookup(pairs_map(acc@), k)]
                    opt_lookup(pairs_map(acc@), k) == (if scoped_map(self.entries@.take(i as int)).contains_key((d, k)) {
                        Some(scoped_map(self.entries@.take(i as int))[(d, k)])
                    } else {
                        opt_lookup(start, k)
                    }),
            decreases self.entries.len() - i,
        {
            assert(self.entries@.take(i + 1).drop_last() =~= self.entries@.take(i as int));
            let e = &self.entries[i];
            let ghost prev = scoped_map(self.entries@.take(i as int));
            let ghost next = scoped_map(self.entries@.take(i + 1));
            assert(next == prev.insert((strings_of(e.dir@), e.key@), e.value@));
            if is_prefix_dir(&e.dir, pwd, len) {
                let ghost before = acc@;
                acc.push((e.key.clone(), e.value.clone()));
                assert(acc@.drop_last() =~= before);
                assert(pairs_map(acc@) == pairs_map(before).insert(e.key@, e.value@));
                assert forall|k: Seq<char>|
                    #[trigger] opt_lookup(pairs_map(acc@), k) == (if next.contains_key((d, k)) {
                        Some(next[(d, k)])
                    } else {
                        opt_lookup(start, k)
                    }) by {
                    if k != e.key@ {
                        assert(opt_lookup(pairs_map(before), k) == opt_lookup(pairs_map(acc@), k));
                    }
                }
            } else {
                assert forall|k: Seq<char>|
                    #[trigger] opt_lookup(pairs_map(acc@), k) == (if next.contains_key((d, k)) {
                        Some(next[(d, k)])
                    } else {
                        opt_lookup(start, k)
                    }) by {
                    assert((d, k) != (strings_of(e.dir@), e.key@));
                }
            }
            i = i + 1;
        }
        assert(self.entries@.take(self.entries.len() as int) =~= self.entries@);
    }

    /// All settings in effect in `pwd`: the settings of each directory from
    /// the root down to `pwd` laid over those of its ancestors.
    pub fn resolve_all(&self, pwd: &Vec<String>) -> (r: Vec<(String, String)>)
        ensures
            pairs_map(r@) == resolve_map(self@, strings_of(pwd@)),
    {
        let ghost p = strings_of(pwd@);
        let mut acc: Vec<(String, String)> = Vec::new();
        let mut len: usize = 0;
        while len < pwd.len()
            invariant
                len <= pwd.len(),
                p == strings_of(pwd@),
                forall|k: Seq<char>|
                    #![trigger opt_lookup(pairs_map(acc@), k)]
                    opt_lookup(pairs_map(acc@), k) == resolve_upto(self@, p, len as nat, k),
            decreases pwd.len() - len,
        {
            self.overlay_level(&mut acc, pwd, len);
            assert forall|k: Seq<char>| #[trigger] opt_lookup(pairs_map(acc@), k) == resolve_upto(self@, p, (len + 1) as nat, k) by {
                assert(((len + 1) as nat) - 1 == len);
            }
            len = len + 1;
        }
        self.overlay_level(&mut acc, pwd, len);
        assert forall|k: Seq<char>| #[trigger] opt_lookup(pairs_map(acc@), k) == resolve(self@, p, k) by {
            assert(((len + 1) as nat) - 1 == len);
        }
        assert forall|k: Seq<char>| pairs_map(acc@).contains_key(k) == resolve_map(self@, p).contains_key(k) by {
            assert(opt_lookup(pairs_map(acc@), k) == resolve(self@, p, k));
        }
        assert forall|k: Seq<char>| #[trigger] pairs_map(acc@).contains_key(k) implies pairs_map(acc@)[k] == resolve_map(self@, p)[k] by {
            assert(opt_lookup(pairs_map(acc@), k) == resolve(self@, p, k));
        }
        assert(pairs_map(acc@) =~= resolve_map(self@, p));
        acc
    }

    /// Gives `key` the value `value` in the directory `pwd` itself.
    pub fn set(&mut self, pwd: &Vec<String>, key: String, value: String)
        ensures
            final(self)@ == old(self)@.insert((strings_of(pwd@), key@), value@),
    {
        let dir = crate::assoc::copy_strings(pwd);
        let ghost before = self.entries@;
        self.entries.push(ScopedSetting { dir, key, value });
        assert(self.entries@.drop_last() =~= before);
    }

    /// Takes `key` out of the directory `pwd` itself; its ancestors keep theirs.
    pub fn remove(&mut self, pwd: &Vec<String>, key: &String)
        ensures
            final(self)@ == old(self)@.remove((strings_of(pwd@), key@)),
    {
        let ghost target = (strings_of(pwd@), key@);
        let mut kept: Vec<ScopedSetting> = Vec::new();
        let mut old_entries: Vec<ScopedSetting> = Vec::new();
        std::mem::swap(&mut old_entries, &mut self.entries);
        let ghost all = old_entries@;
        let mut i: usize = 0;
        while i < old_entries.len()
            invariant
                i <= old_entries.len(),
                old_entries@ == all,
                target == (strings_of(pwd@), key@),
                scoped_map(kept@) == scoped_map(all.take(i as int)).remove(target),
            decreases old_entries.len() - i,
        {
            assert(all.take(i + 1).drop_last() =~= all.take(i as int));
            let e = &old_entries[i];
            let ghost prev = scoped_map(all.take(i as int));
            let ghost ek = (strings_of(e.dir@), e.key@);
            assert(scoped_map(all.take(i + 1)) == prev.insert(ek, e.value@));
            if e.key == *key && is_prefix_dir(&e.dir, pwd, pwd.len()) {
                assert(strings_of(pwd@).take(pwd.len() as int) =~= strings_of(pwd@));
                assert(prev.insert(ek, e.value@).remove(target) =~= prev.remove(target));
            } else {
                assert(strings_of(pwd@).take(pwd.len() as int) =~= strings_of(pwd@));
                let ghost before = kept@;
                kept.push(ScopedSetting { dir: crate::assoc::copy_strings(&e.dir), key: e.key.clone(), value: e.value.clone() });
                assert(kept@.drop_last() =~= before);
                assert(prev.insert(ek, e.value@).remove(target) =~= prev.remove(target).insert(ek, e.value@));
            }
            i = i + 1;
        }
        assert(all.take(all.len() as int) =~= all);
        self.entries = kept;
    }
}

/// Two stores read alike from two directories, over the first `levels`
/// levels of their chains, where the chains and the stores agree there.
proof fn lemma_resolve_upto_agree(
    m1: StoreModel,
    m2: StoreModel,
    p: DirModel,
    q: DirModel,
    levels: nat,
    key: Seq<char>,
)
    requires
        forall|l: int| 0 <= l < levels ==> #[trigger] p.take(l) == q.take(l),
        forall|l: int|
            0 <= l < levels ==> (#[trigger] m1.contains_key((p.take(l), key)) == m2.contains_key((p.take(l), key))
                && (m1.contains_key((p.take(l), key)) ==> m1[(p.take(l), key)] == m2[(p.take(l), key)])),
    ensures
        resolve_upto(m1, p, levels, key) == resolve_upto(m2, q, levels, key),
    decreases levels,
{
    if levels > 0 {
        let l = levels - 1;
        assert(p.take(l) == q.take(l));
        assert(m1.contains_key((p.take(l), key)) == m2.contains_key((p.take(l), key)));
        lemma_resolve_upto_agree(m1, m2, p, q, (levels - 1) as nat, key);
    }
}

/// Where the directory of depth `depth` on the chain of `pwd` defines `key`
/// and no deeper directory of the chain does, the value in effect in `pwd`
/// is the one defined at that depth.
proof fn lemma_resolve_upto_deepest(m: StoreModel, pwd: DirModel, levels: nat, key: Seq<char>, depth: int)
    requires
        0 <= depth < levels,
        m.contains_key((pwd.take(depth), key)),
        forall|j: int| depth < j < levels ==> !m.contains_key((#[trigger] pwd.take(j), key)),
    ensures
        resolve_upto(m, pwd, levels, key) == Some(m[(pwd.take(depth), key)]),
    decreases levels,
{
    if levels - 1 > depth {
        assert(!m.contains_key((pwd.take(levels - 1), key)));
        lemma_resolve_upto_deepest(m, pwd, (levels - 1) as nat, key, depth);
    }
}

/// The settings in effect in `pwd` give each key the value of the deepest
/// directory of the chain from the root down to `pwd` that defines it,
/// whichever levels of the chain define it and whichever do not.
pub proof fn law_deepest_definition_wins(store: &SettingsStore, pwd: DirModel, key: Seq<char>, depth: int)
    requires
        0 <= depth <= pwd.len(),
        store@.contains_key((pwd.take(depth), key)),
        forall|j: int| depth < j <= pwd.len() ==> !store@.contains_key((#[trigger] pwd.take(j), key)),
    ensures
        resolve_map(store@, pwd).contains_key(key),
        resolve_map(store@, pwd)[key] == store@[(pwd.take(depth), key)],
{
    lemma_resolve_upto_deepest(store@, pwd, pwd.len() + 1, key, depth);
}

/// Reading one setting in `pwd` agrees with reading all of them there.
pub proof fn law_resolve_one_matches_all(store: &SettingsStore, pwd: DirModel, key: Seq<char>)
    ensures
        resolve(store@, pwd, key) == opt_lookup(resolve_map(store@, pwd), key),
{
}

/// After a setting is given in `pwd`, it is in effect in `pwd`, and what is
/// in effect in every strict ancestor of `pwd` stays as it was.
pub proof fn law_set_then_resolve(
    store: &SettingsStore,
    pwd: DirModel,
    key: Seq<char>,
    value: Seq<char>,
    depth: int,
    other: Seq<char>,
)
    requires
        0 <= depth < pwd.len(),
    ensures
        resolve(store@.insert((pwd, key), value), pwd, key) == Some(value),
        resolve(store@.insert((pwd, key), value), pwd.take(depth), other) == resolve(store@, pwd.take(depth), other),
{
    let m = store@;
    let m2 = m.insert((pwd, key), value);
    assert(pwd.take(pwd.len() as int) =~= pwd);
    let a = pwd.take(depth);
    assert forall|l: int| 0 <= l < a.len() + 1 implies #[trigger] a.take(l) == a.take(l) by {}
    assert forall|l: int| 0 <= l < a.len() + 1 implies (#[trigger] m2.contains_key((a.take(l), other)) == m.contains_key((a.take(l), other))
        && (m2.contains_key((a.take(l), other)) ==> m2[(a.take(l), other)] == m[(a.take(l), other)])) by {
        assert(a.take(l).len() != pwd.len());
    }
    lemma_resolve_upto_agree(m2, m, a, a, (a.len() + 1) as nat, other);
}

/// Taking out a setting just given in `pwd` lets `pwd` see the value in
/// effect in its parent, or none at the root.
pub proof fn law_remove_after_set(store: &SettingsStore, pwd: DirModel, key: Seq<char>, value: Seq<char>)
    ensures
        pwd.len() == 0 ==> resolve(store@.insert((pwd, key), value).remove((pwd, key)), pwd, key) is None,
        pwd.len() > 0 ==> resolve(store@.insert((pwd, key), value).remove((pwd, key)), pwd, key)
            == resolve(store@, pwd.drop_last(), key),
{
    let m = store@;
    let m2 = m.insert((pwd, key), value).remove((pwd, key));
    assert(pwd.take(pwd.len() as int) =~= pwd);
    assert(!m2.contains_key((pwd, key)));
    if pwd.len() == 0 {
        assert(resolve_upto(m2, pwd, 0, key) is None);
    } else {
        let parent = pwd.drop_last();
        assert forall|l: int| 0 <= l < parent.len() + 1 implies #[trigger] pwd.take(l) == parent.take(l) by {
            assert(pwd.take(l) =~= parent.take(l));
        }
        assert forall|l: int| 0 <= l < parent.len() + 1 implies (#[trigger] m2.contains_key((pwd.take(l), key)) == m.contains_key((pwd.take(l), key))
            && (m2.contains_key((pwd.take(l), key)) ==> m2[(pwd.take(l), key)] == m[(pwd.take(l), key)])) by {
            assert(pwd.take(l).len() != pwd.len());
        }
        lemma_resolve_upto_agree(m2, m, pwd, parent, pwd.len() as nat, key);
    }
}

} // verus!
