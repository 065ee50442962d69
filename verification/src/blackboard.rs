//! The blackboard: the shared key/value working memory of one tree instance.
//!
//! Keys are strings; values carry their own runtime tag (`Value`), and a read
//! that asks for the wrong tag is indistinguishable from a missing key — by
//! design the sole way leaves report "not there". The model of a blackboard
//! is a `Map<Seq<char>, Value>`, and every operation is specified against it.

use vstd::prelude::*;

verus! {

/// A tagged value stored in the blackboard. The tag is the "runtime type" a
/// typed read checks against.
#[derive(Clone, Debug)]
pub enum Value {
    Bool(bool),
    Int(i64),
    Text(String),
}

/// Shared working memory: at most one value per key; a `set` replaces any
/// prior value and prior tag for that key.
pub struct BlackBoard {
    data: Vec<(String, Value)>,
}

/// The association list read as a map; a later entry for a key would
/// override an earlier one, though the blackboard never keeps two.
pub open spec fn kv_map(s: Seq<(String, Value)>) -> Map<Seq<char>, Value>
    decreases s,
{
    if s.len() == 0 {
        Map::empty()
    } else {
        kv_map(s.drop_last()).insert(s.last().0@, s.last().1)
    }
}

pub open spec fn distinct_keys(s: Seq<(String, Value)>) -> bool {
    forall|i: int, j: int| 0 <= i < j < s.len() ==> (#[trigger] s[i]).0@ != (#[trigger] s[j]).0@
}

proof fn lemma_kv_dom(s: Seq<(String, Value)>, k: Seq<char>)
    ensures
        kv_map(s).contains_key(k) <==> exists|i: int| 0 <= i < s.len() && (#[trigger] s[i]).0@
            == k,
    decreases s,
{
    if s.len() > 0 {
        lemma_kv_dom(s.drop_last(), k);
        assert(forall|i: int| 0 <= i < s.len() - 1 ==> s.drop_last()[i] == s[i]);
        if kv_map(s).contains_key(k) {
            if s.last().0@ == k {
                assert(s[s.len() - 1].0@ == k);
            }
        }
        if exists|i: int| 0 <= i < s.len() && (#[trigger] s[i]).0@ == k {
            let i = choose|i: int| 0 <= i < s.len() && (#[trigger] s[i]).0@ == k;
            if i < s.len() - 1 {
                assert(s.drop_last()[i].0@ == k);
            }
        }
    }
}

proof fn lemma_kv_at(s: Seq<(String, Value)>, i: int)
    requires
        distinct_keys(s),
        0 <= i < s.len(),
    ensures
        kv_map(s).contains_key(s[i].0@),
        kv_map(s)[s[i].0@] == s[i].1,
    decreases s,
{
    lemma_kv_dom(s, s[i].0@);
    if i < s.len() - 1 {
        assert(forall|j: int| 0 <= j < s.len() - 1 ==> s.drop_last()[j] == s[j]);
        lemma_kv_at(s.drop_last(), i);
        assert(s.last().0@ != s[i].0@);
    }
}

proof fn lemma_kv_update(s: Seq<(String, Value)>, i: int, e: (String, Value))
    requires
        distinct_keys(s),
        0 <= i < s.len(),
        e.0@ == s[i].0@,
    ensures
        kv_map(s.update(i, e)) == kv_map(s).insert(e.0@, e.1),
    decreases s,
{
    let t = s.update(i, e);
    assert(forall|j: int| 0 <= j < s.len() - 1 ==> s.drop_last()[j] == s[j]);
    if i == s.len() - 1 {
        assert(t.drop_last() =~= s.drop_last());
        assert(t.last() == e);
        assert(kv_map(s).insert(e.0@, e.1) =~= kv_map(s.drop_last()).insert(e.0@, e.1));
    } else {
        assert(t.drop_last() =~= s.drop_last().update(i, e));
        assert(t.last() == s.last());
        lemma_kv_update(s.drop_last(), i, e);
        assert(s.last().0@ != e.0@);
        assert(kv_map(s.drop_last()).insert(e.0@, e.1).insert(s.last().0@, s.last().1)
            =~= kv_map(s.drop_last()).insert(s.last().0@, s.last().1).insert(e.0@, e.1));
    }
}

proof fn lemma_kv_remove(s: Seq<(String, Value)>, i: int)
    requires
        distinct_keys(s),
        0 <= i < s.len(),
    ensures
        kv_map(s.remove(i)) == kv_map(s).remove(s[i].0@),
    decreases s,
{
    let t = s.remove(i);
    let k = s[i].0@;
    assert(forall|j: int| 0 <= j < s.len() - 1 ==> s.drop_last()[j] == s[j]);
    if i == s.len() - 1 {
        assert(t =~= s.drop_last());
        lemma_kv_dom(s.drop_last(), k);
        assert(forall|j: int| 0 <= j < s.len() - 1 ==> s.drop_last()[j].0@ != k);
        assert(!kv_map(s.drop_last()).contains_key(k));
        assert(kv_map(s).remove(k) =~= kv_map(s.drop_last()));
    } else {
        assert(t.drop_last() =~= s.drop_last().remove(i));
        assert(t.len() == s.len() - 1);
        assert(t.last() == s.last());
        lemma_kv_remove(s.drop_last(), i);
        assert(s.last().0@ != k);
        assert(kv_map(s.drop_last()).remove(k).insert(s.last().0@, s.last().1)
            =~= kv_map(s.drop_last()).insert(s.last().0@, s.last().1).remove(k));
    }
}

proof fn lemma_kv_push(s: Seq<(String, Value)>, e: (String, Value))
    ensures
        kv_map(s.push(e)) == kv_map(s).insert(e.0@, e.1),
{
    assert(s.push(e).drop_last() =~= s);
    assert(s.push(e).last() == e);
}

impl View for BlackBoard {
    type V = Map<Seq<char>, Value>;

    closed spec fn view(&self) -> Map<Seq<char>, Value> {
        kv_map(self.data@)
    }
}

impl BlackBoard {
    #[verifier::type_invariant]
    spec fn inv(self) -> bool {
        distinct_keys(self.data@)
    }

    /// An empty blackboard.
    pub fn new() -> (b: BlackBoard)
        ensures
            b@ == Map::<Seq<char>, Value>::empty(),
    {
        BlackBoard { data: Vec::new() }
    }

    /// Store `value` under `key`, replacing any previous entry of any tag.
    /// Always succeeds.
    pub fn set(&mut self, key: &str, value: Value)
        ensures
            final(self)@ == old(self)@.insert(key@, value),
    {
        proof {
            use_type_invariant(&*self);
        }
        let owned = key.to_owned();
        let mut d: Vec<(String, Value)> = Vec::new();
        core::mem::swap(&mut d, &mut self.data);
        let n = d.len();
        let mut i: usize = 0;
        while i < n
            invariant
                n == d@.len(),
                d@ == old(self).data@,
                distinct_keys(d@),
                owned@ == key@,
                forall|j: int| 0 <= j < i ==> (#[trigger] d@[j]).0@ != key@,
            decreases n - i,
        {
            if d[i].0 == owned {
                proof {
                    lemma_kv_update(d@, i as int, (owned, value));
                    let t = d@.update(i as int, (owned, value));
                    assert(forall|a: int, b: int|
                        0 <= a < b < t.len() ==> (#[trigger] t[a]).0@ != (#[trigger] t[b]).0@);
                }
                d[i] = (owned, value);
                self.data = d;
                return ;
            }
            i += 1;
        }
        proof {
            lemma_kv_push(d@, (owned, value));
            lemma_kv_dom(d@, key@);
            let t = d@.push((owned, value));
            assert(forall|a: int, b: int|
                0 <= a < b < t.len() ==> (#[trigger] t[a]).0@ != (#[trigger] t[b]).0@);
        }
        d.push((owned, value));
        self.data = d;
    }

    /// Read the value stored under `key`, whatever its tag.
    pub fn get(&self, key: &str) -> (r: Option<&Value>)
        ensures
            r == (if self@.contains_key(key@) {
                Some(&self@[key@])
            } else {
                None::<&Value>
            }),
    {
        proof {
            use_type_invariant(self);
        }
        let owned = key.to_owned();
        let n = self.data.len();
        let mut i: usize = 0;
        while i < n
            invariant
                n == self.data@.len(),
                distinct_keys(self.data@),
                owned@ == key@,
                forall|j: int| 0 <= j < i ==> (#[trigger] self.data@[j]).0@ != key@,
            decreases n - i,
        {
            if self.data[i].0 == owned {
                proof {
                    lemma_kv_at(self.data@, i as int);
                }
                return Some(&self.data[i].1);
            }
            i += 1;
        }
        proof {
            lemma_kv_dom(self.data@, key@);
        }
        None
    }

    /// Does any value sit under `key`?
    pub fn contains_key(&self, key: &str) -> (present: bool)
        ensures
            present == self@.contains_key(key@),
    {
        self.get(key).is_some()
    }

    /// Drop the entry under `key`; reports whether one existed.
    pub fn remove(&mut self, key: &str) -> (removed: bool)
        ensures
            final(self)@ == old(self)@.remove(key@),
            removed == old(self)@.contains_key(key@),
    {
        proof {
            use_type_invariant(&*self);
        }
        let owned = key.to_owned();
        let mut d: Vec<(String, Value)> = Vec::new();
        core::mem::swap(&mut d, &mut self.data);
        let n = d.len();
        let mut i: usize = 0;
        while i < n
            invariant
                n == d@.len(),
                d@ == old(self).data@,
                distinct_keys(d@),
                owned@ == key@,
                forall|j: int| 0 <= j < i ==> (#[trigger] d@[j]).0@ != key@,
            decreases n - i,
        {
            if d[i].0 == owned {
                proof {
                    lemma_kv_at(d@, i as int);
                    lemma_kv_remove(d@, i as int);
                    let t = d@.remove(i as int);
                    assert(forall|a: int, b: int|
                        0 <= a < b < t.len() ==> (#[trigger] t[a]).0@ != (#[trigger] t[b]).0@);
                }
                d.remove(i);
                self.data = d;
                return true;
            }
            i += 1;
        }
        proof {
            lemma_kv_dom(d@, key@);
            assert(kv_map(d@).remove(key@) =~= kv_map(d@));
        }
        self.data = d;
        false
    }

    /// Typed read: the stored boolean, or absent on a missing key or a
    /// mismatched tag.
    pub fn get_bool(&self, key: &str) -> (r: Option<bool>)
        ensures
            r == (if self@.contains_key(key@) && self@[key@] is Bool {
                Some(self@[key@]->Bool_0)
            } else {
                None::<bool>
            }),
    {
        match self.get(key) {
            Some(Value::Bool(b)) => Some(*b),
            _ => None,
        }
    }

    /// Typed read: the stored integer, or absent on a missing key or a
    /// mismatched tag.
    pub fn get_int(&self, key: &str) -> (r: Option<i64>)
        ensures
            r == (if self@.contains_key(key@) && self@[key@] is Int {
                Some(self@[key@]->Int_0)
            } else {
                None::<i64>
            }),
    {
        match self.get(key) {
            Some(Value::Int(v)) => Some(*v),
            _ => None,
        }
    }

    /// Typed read: the stored text, or absent on a missing key or a
    /// mismatched tag.
    pub fn get_text(&self, key: &str) -> (r: Option<&String>)
        ensures
            r == (if self@.contains_key(key@) && self@[key@] is Text {
                Some(&self@[key@]->Text_0)
            } else {
                None::<&String>
            }),
    {
        match self.get(key) {
            Some(Value::Text(t)) => Some(t),
            _ => None,
        }
    }
}

} // verus!
