use vstd::prelude::*;

verus! {

/// An association list of text keys to text values, as a sequence of pairs.
pub type PairsView = Seq<(Seq<char>, Seq<char>)>;

/// The value of the first pair whose key is `key`, looking from index `j` on.
pub open spec fn lookup_from(entries: PairsView, key: Seq<char>, j: int) -> Option<Seq<char>>
    decreases entries.len() - j,
{
    if j < 0 || j >= entries.len() {
        None
    } else if entries[j].0 == key {
        Some(entries[j].1)
    } else {
        lookup_from(entries, key, j + 1)
    }
}

/// The value of the first pair whose key is `key`.
pub open spec fn lookup(entries: PairsView, key: Seq<char>) -> Option<Seq<char>> {
    lookup_from(entries, key, 0)
}

/// No key occurs twice.
pub open spec fn keys_unique(entries: PairsView) -> bool {
    forall|a: int, b: int|
        0 <= a < entries.len() && 0 <= b < entries.len() && a != b ==> entries[a].0
            != entries[b].0
}

pub proof fn lemma_lookup_at(entries: PairsView, key: Seq<char>, j: int, at: int)
    requires
        0 <= j <= at < entries.len(),
        entries[at].0 == key,
        forall|a: int| j <= a < at ==> entries[a].0 != key,
    ensures
        lookup_from(entries, key, j) == Some(entries[at].1),
    decreases at - j,
{
    if j < at {
        lemma_lookup_at(entries, key, j + 1, at);
    }
}

/// Finds the value paired with `key`, the first such pair winning.
pub fn find_pair(entries: &Vec<(String, String)>, key: &String) -> (r: Option<String>)
    ensures
        r matches Some(v) ==> lookup(pairs_view(entries@), key@) == Some(v@),
        r is None ==> lookup(pairs_view(entries@), key@) is None,
{
    let ghost pv = pairs_view(entries@);
    let mut j: usize = 0;
    while j < entries.len()
        invariant
            j <= entries@.len(),
            pv == pairs_view(entries@),
            lookup(pv, key@) == lookup_from(pv, key@, j as int),
        decreases entries@.len() - j,
    {
        if entries[j].0 == *key {
            return Some(entries[j].1.clone());
        }
        j = j + 1;
    }
    None
}

/// The views of a vector of text pairs.
pub open spec fn pairs_view(v: Seq<(String, String)>) -> PairsView {
    v.map_values(|p: (String, String)| (p.0@, p.1@))
}

/// A declared variable of a pipeline with the value it takes when the
/// caller supplies none.
pub struct Variable {
    pub name: String,
    pub default_value: String,
}

impl Variable {
    pub fn new(name: String, default_value: String) -> (r: Variable)
        ensures
            r.name == name,
            r.default_value == default_value,
    {
        Variable { name, default_value }
    }
}

/// The names and defaults of declared variables, as pairs.
pub open spec fn variables_view(v: Seq<Variable>) -> PairsView {
    v.map_values(|d: Variable| (d.name@, d.default_value@))
}

/// Finds the default of the first declared variable named `key`.
pub fn find_default(decls: &Vec<Variable>, key: &String) -> (r: Option<String>)
    ensures
        r matches Some(v) ==> lookup(variables_view(decls@), key@) == Some(v@),
        r is None ==> lookup(variables_view(decls@), key@) is None,
{
    let ghost pv = variables_view(decls@);
    let mut j: usize = 0;
    while j < decls.len()
        invariant
            j <= decls@.len(),
            pv == variables_view(decls@),
            lookup(pv, key@) == lookup_from(pv, key@, j as int),
        decreases decls@.len() - j,
    {
        if decls[j].name == *key {
            return Some(decls[j].default_value.clone());
        }
        j = j + 1;
    }
    None
}

/// A map from names to values, kept in insertion order with each key once.
pub struct VarMap {
    entries: Vec<(String, String)>,
}

impl View for VarMap {
    type V = PairsView;

    closed spec fn view(&self) -> PairsView {
        pairs_view(self.entries@)
    }
}

impl VarMap {
    pub open spec fn wf(&self) -> bool {
        keys_unique(self@)
    }

    pub fn new() -> (r: VarMap)
        ensures
            r.wf(),
            r@.len() == 0,
    {
        VarMap { entries: Vec::new() }
    }

    pub fn len(&self) -> (r: usize)
        ensures
            r == self@.len(),
    {
        self.entries.len()
    }

    /// The value stored under `key`.
    pub fn get(&self, key: &String) -> (r: Option<String>)
        ensures
            r matches Some(v) ==> lookup(self@, key@) == Some(v@),
            r is None ==> lookup(self@, key@) is None,
    {
        find_pair(&self.entries, key)
    }

    /// The key and value at position `i` in insertion order.
    pub fn entry(&self, i: usize) -> (r: (String, String))
        requires
            i < self@.len(),
        ensures
            r.0@ == self@[i as int].0,
            r.1@ == self@[i as int].1,
    {
        (self.entries[i].0.clone(), self.entries[i].1.clone())
    }

    /// Stores `value` under `key`, replacing an earlier value of that key.
    pub fn insert(&mut self, key: String, value: String)
        requires
            old(self).wf(),
        ensures
            final(self).wf(),
            lookup(final(self)@, key@) == Some(value@),
            forall|k: Seq<char>| k != key@ ==> lookup(final(self)@, k) == lookup(old(self)@, k),
    {
        let ghost pre = self@;
        let mut j: usize = 0;
        while j < self.entries.len()
            invariant
                j <= self@.len(),
                self@ == pre,
                pre == old(self)@,
                keys_unique(pre),
                forall|a: int| 0 <= a < j ==> pre[a].0 != key@,
            decreases self@.len() - j,
        {
            if self.entries[j].0 == key {
                let ghost kv = key@;
                let ghost vv = value@;
                self.entries.set(j, (key, value));
                proof {
                    assert(self@ == pre.update(j as int, (kv, vv)));
                    assert forall|a: int, b: int|
                        0 <= a < self@.len() && 0 <= b < self@.len() && a != b implies self@[a].0
                            != self@[b].0 by {
                        if a != j && b != j {
                            assert(self@[a] == pre[a] && self@[b] == pre[b]);
                        } else if a == j {
                            assert(self@[b] == pre[b]);
                            assert(pre[j as int].0 == kv);
                        } else {
                            assert(self@[a] == pre[a]);
                            assert(pre[j as int].0 == kv);
                        }
                    }
                    lemma_lookup_at(self@, kv, 0, j as int);
                    assert forall|k: Seq<char>| k != kv implies lookup(self@, k) == lookup(
                        pre,
                        k,
                    ) by {
                        assert(pre[j as int].0 == kv);
                        assert(self@[j as int].0 == kv);
                        assert forall|a: int| 0 <= a < pre.len() && a != j implies self@[a] == pre[a] by {}
                        lemma_lookup_same(pre, self@, k, 0, j as int);
                    }
                }
                return;
            }
            j = j + 1;
        }
        let ghost kv = key@;
        let ghost vv = value@;
        self.entries.push((key, value));
        proof {
            assert(self@ == pre.push((kv, vv)));
            assert forall|a: int, b: int|
                0 <= a < self@.len() && 0 <= b < self@.len() && a != b implies self@[a].0
                    != self@[b].0 by {
                if a < pre.len() && b < pre.len() {
                    assert(self@[a] == pre[a] && self@[b] == pre[b]);
                } else if a < pre.len() {
                    assert(self@[a] == pre[a]);
                } else {
                    assert(self@[b] == pre[b]);
                }
            }
            lemma_lookup_at(self@, kv, 0, pre.len() as int);
            assert forall|k: Seq<char>| k != kv implies lookup(self@, k) == lookup(pre, k) by {
                lemma_lookup_push(pre, kv, vv, k, 0);
            }
        }
    }
}

/// Replacing a pair with one of another key leaves other lookups unchanged.
proof fn lemma_lookup_same(pre: PairsView, post: PairsView, k: Seq<char>, j: int, at: int)
    requires
        0 <= j,
        0 <= at < pre.len(),
        post.len() == pre.len(),
        forall|a: int| 0 <= a < pre.len() && a != at ==> post[a] == pre[a],
        post[at].0 == pre[at].0,
        pre[at].0 != k,
    ensures
        lookup_from(post, k, j) == lookup_from(pre, k, j),
    decreases pre.len() - j,
{
    if j < pre.len() {
        lemma_lookup_same(pre, post, k, j + 1, at);
    }
}

/// Appending a pair of another key leaves other lookups unchanged.
proof fn lemma_lookup_push(pre: PairsView, kv: Seq<char>, vv: Seq<char>, k: Seq<char>, j: int)
    requires
        0 <= j,
        k != kv,
    ensures
        lookup_from(pre.push((kv, vv)), k, j) == lookup_from(pre, k, j),
    decreases pre.len() + 1 - j,
{
    if j < pre.len() {
        assert(pre.push((kv, vv))[j] == pre[j]);
        lemma_lookup_push(pre, kv, vv, k, j + 1);
    } else if j == pre.len() {
        assert(pre.push((kv, vv))[j].0 == kv);
        assert(lookup_from(pre.push((kv, vv)), k, j + 1) is None);
    }
}

/// The name and value of a `key=value` argument: split at the first `=`;
/// without one, the whole text is the name and the value is empty.
pub open spec fn split_assignment(s: Seq<char>) -> (Seq<char>, Seq<char>) {
    if exists|i: int| 0 <= i < s.len() && s[i] == '=' {
        let i = first_eq(s);
        (s.subrange(0, i), s.subrange(i + 1, s.len() as int))
    } else {
        (s, Seq::empty())
    }
}

/// The position of the first `=` in `s`.
pub open spec fn first_eq(s: Seq<char>) -> int {
    choose|i: int| 0 <= i < s.len() && s[i] == '=' && forall|j: int| 0 <= j < i ==> s[j] != '='
}

/// Splits one `key=value` argument at its first `=`.
pub fn parse_variable(s: &str) -> (r: (String, String))
    ensures
        (r.0@, r.1@) == split_assignment(s@),
{
    let n = s.unicode_len();
    let mut i: usize = 0;
    while i < n
        invariant
            n == s@.len(),
            i <= n,
            forall|j: int| 0 <= j < i ==> s@[j] != '=',
        decreases n - i,
    {
        if s.get_char(i) == '=' {
            let name = String::from_str(s.substring_char(0, i));
            let value = String::from_str(s.substring_char(i + 1, n));
            proof {
                let w = first_eq(s@);
                assert(0 <= w < s@.len() && s@[w] == '=' && forall|j: int|
                    0 <= j < w ==> s@[j] != '=') by {
                    assert(0 <= i < s@.len() && s@[i as int] == '=');
                }
                assert(w == i);
            }
            return (name, value);
        }
        i = i + 1;
    }
    (String::from_str(s), String::new())
}

/// The map that a list of `key=value` arguments defines; a later argument
/// overrides an earlier one with the same name.
pub open spec fn assignments_lookup(args: Seq<Seq<char>>, key: Seq<char>) -> Option<Seq<char>>
    decreases args.len(),
{
    if args.len() == 0 {
        None
    } else {
        let last = split_assignment(args.last());
        if last.0 == key {
            Some(last.1)
        } else {
            assignments_lookup(args.drop_last(), key)
        }
    }
}

/// Collects `key=value` arguments into a map; later ones win.
pub fn parse_variables(args: &Vec<String>) -> (r: VarMap)
    ensures
        r.wf(),
        forall|k: Seq<char>|
            lookup(r@, k) == assignments_lookup(args@.map_values(|a: String| a@), k),
{
    let ghost av = args@.map_values(|a: String| a@);
    let mut m = VarMap::new();
    let mut i: usize = 0;
    while i < args.len()
        invariant
            i <= args@.len(),
            av == args@.map_values(|a: String| a@),
            m.wf(),
            forall|k: Seq<char>| lookup(m@, k) == assignments_lookup(av.subrange(0, i as int), k),
        decreases args@.len() - i,
    {
        let (name, value) = parse_variable(args[i].as_str());
        m.insert(name, value);
        proof {
            let pre = av.subrange(0, i as int);
            let post = av.subrange(0, i as int + 1);
            assert(post.drop_last() == pre);
            assert(post.last() == args@[i as int]@);
        }
        i = i + 1;
    }
    proof {
        assert(av.subrange(0, args@.len() as int) == av);
    }
    m
}

} // verus!
