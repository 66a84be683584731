//! The map from exported local bindings to the names under which they are
//! exported.
use vstd::prelude::*;
use crate::symbol::{ExportKey, is_eq_sym};

verus! {

/// A binding key and the export names recorded for it.
pub struct ExportEntry {
    pub key: ExportKey,
    pub names: Vec<String>,
}

pub open spec fn strings_view(v: Seq<String>) -> Seq<Seq<char>> {
    v.map_values(|s: String| s@)
}

pub open spec fn entry_view(e: ExportEntry) -> ((Seq<char>, Option<u32>), Seq<Seq<char>>) {
    (e.key@, strings_view(e.names@))
}

pub open spec fn entries_view(s: Seq<ExportEntry>) -> Seq<((Seq<char>, Option<u32>), Seq<Seq<char>>)> {
    s.map_values(|e: ExportEntry| entry_view(e))
}

/// The map of a list of entries.
pub open spec fn map_of<K, V>(s: Seq<(K, V)>) -> Map<K, V>
    decreases s.len(),
{
    if s.len() == 0 {
        Map::empty()
    } else {
        map_of(s.drop_last()).insert(s.last().0, s.last().1)
    }
}

/// No key occurs twice.
pub open spec fn keys_distinct<K, V>(s: Seq<(K, V)>) -> bool {
    forall|i: int, j: int| 0 <= i < j < s.len() ==> s[i].0 != s[j].0
}

proof fn lemma_map_of_dom<K, V>(s: Seq<(K, V)>, k: K)
    ensures
        map_of(s).dom().contains(k) <==> exists|i: int| 0 <= i < s.len() && #[trigger] s[i].0 == k,
    decreases s.len(),
{
    if s.len() > 0 {
        lemma_map_of_dom(s.drop_last(), k);
        if map_of(s).dom().contains(k) && k != s.last().0 {
            let i = choose|i: int| 0 <= i < s.drop_last().len() && #[trigger] s.drop_last()[i].0 == k;
            assert(s[i].0 == k);
        }
        if exists|i: int| 0 <= i < s.len() && #[trigger] s[i].0 == k {
            let i = choose|i: int| 0 <= i < s.len() && #[trigger] s[i].0 == k;
            if i < s.len() - 1 {
                assert(s.drop_last()[i].0 == k);
            }
        }
    }
}

proof fn lemma_map_of_index<K, V>(s: Seq<(K, V)>, i: int)
    requires
        keys_distinct(s),
        0 <= i < s.len(),
    ensures
        map_of(s).dom().contains(s[i].0),
        map_of(s)[s[i].0] == s[i].1,
    decreases s.len(),
{
    if i < s.len() - 1 {
        lemma_map_of_index(s.drop_last(), i);
        assert(s.drop_last()[i] == s[i]);
    }
}

proof fn lemma_map_of_update<K, V>(s: Seq<(K, V)>, i: int, e: (K, V))
    requires
        keys_distinct(s),
        0 <= i < s.len(),
        e.0 == s[i].0,
    ensures
        map_of(s.update(i, e)) =~= map_of(s).insert(e.0, e.1),
    decreases s.len(),
{
    if i == s.len() - 1 {
        assert(s.update(i, e).drop_last() =~= s.drop_last());
        lemma_map_of_dom(s.drop_last(), e.0);
    } else {
        lemma_map_of_update(s.drop_last(), i, e);
        assert(s.update(i, e).drop_last() =~= s.drop_last().update(i, e));
        assert(s.last().0 != e.0);
    }
}

/// The export names of `key` with `value` added, as the transform records an
/// export.
pub open spec fn add_export_name_spec(
    m: Map<(Seq<char>, Option<u32>), Seq<Seq<char>>>,
    key: (Seq<char>, Option<u32>),
    value: Seq<char>,
) -> Map<(Seq<char>, Option<u32>), Seq<Seq<char>>> {
    if m.dom().contains(key) {
        m.insert(key, m[key].push(value))
    } else {
        m.insert(key, seq![value])
    }
}

/// A map from binding keys to export names; each key occurs once.
pub struct ExportMap {
    entries: Vec<ExportEntry>,
}

impl ExportMap {
    #[verifier::type_invariant]
    spec fn inv(self) -> bool {
        keys_distinct(entries_view(self.entries@))
    }

    pub closed spec fn spec_map(self) -> Map<(Seq<char>, Option<u32>), Seq<Seq<char>>> {
        map_of(entries_view(self.entries@))
    }

    /// An empty map.
    pub fn new() -> (r: ExportMap)
        ensures
            r.spec_map() == Map::<(Seq<char>, Option<u32>), Seq<Seq<char>>>::empty(),
    {
        let r = ExportMap { entries: Vec::new() };
        assert(entries_view(r.entries@) =~= Seq::empty());
        r
    }

    /// The export names of `key`, if it has any.
    pub fn get(&self, key: &ExportKey) -> (r: Option<&Vec<String>>)
        ensures
            match r {
                Some(v) => self.spec_map().dom().contains(key@) && strings_view(v@) == self.spec_map()[key@],
                None => !self.spec_map().dom().contains(key@),
            },
    {
        proof {
            use_type_invariant(self);
        }
        let ghost ev = entries_view(self.entries@);
        let n = self.entries.len();
        let mut i: usize = 0;
        while i < n
            invariant
                i <= n,
                n == self.entries@.len(),
                ev == entries_view(self.entries@),
                keys_distinct(ev),
                forall|j: int| 0 <= j < i ==> ev[j].0 != key@,
            decreases n - i,
        {
            if is_eq_sym(key, &self.entries[i].key) {
                proof {
                    lemma_map_of_index(ev, i as int);
                }
                return Some(&self.entries[i].names);
            }
            i = i + 1;
        }
        proof {
            lemma_map_of_dom(ev, key@);
        }
        None
    }

    /// Records that `key` is exported as `value`.
    pub fn add(&mut self, key: ExportKey, value: String)
        ensures
            final(self).spec_map() == add_export_name_spec(old(self).spec_map(), key@, value@),
    {
        proof {
            use_type_invariant(&*self);
        }
        let mut es: Vec<ExportEntry> = Vec::new();
        std::mem::swap(&mut es, &mut self.entries);
        let ghost ev = entries_view(es@);
        assert(ev == entries_view(old(self).entries@));
        let n = es.len();
        let mut i: usize = 0;
        while i < n
            invariant
                i <= n,
                n == es@.len(),
                ev == entries_view(es@),
                ev == entries_view(old(self).entries@),
                keys_distinct(ev),
                forall|j: int| 0 <= j < i ==> ev[j].0 != key@,
            decreases n - i,
        {
            if is_eq_sym(&key, &es[i].key) {
                let mut e = es.remove(i);
                let ghost old_e = e;
                e.names.push(value);
                proof {
                    lemma_map_of_index(ev, i as int);
                    lemma_map_of_update(ev, i as int, entry_view(e));
                    assert(strings_view(e.names@) =~= strings_view(old_e.names@).push(value@));
                }
                es.insert(i, e);
                proof {
                    assert(entries_view(es@) =~= ev.update(i as int, entry_view(e)));
                }
                self.entries = es;
                return;
            }
            i = i + 1;
        }
        proof {
            lemma_map_of_dom(ev, key@);
        }
        let mut names = Vec::new();
        names.push(value);
        let e = ExportEntry { key, names };
        es.push(e);
        proof {
            assert(strings_view(names@) =~= seq![value@]);
            assert(entries_view(es@) =~= ev.push(entry_view(e)));
            assert(entries_view(es@).drop_last() =~= ev);
        }
        self.entries = es;
    }
}

} // verus!
