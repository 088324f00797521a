use crate::outside::new_uuid;
use crate::pipeline::concat;
use vstd::prelude::*;

verus! {

/// A registered pipeline: its name, its id and its file's content.
pub struct StoredPipeline {
    pub name: String,
    pub id: String,
    pub content: String,
}

/// The pipelines that a server manages, each name at most once.
pub struct PipelineStore {
    entries: Vec<StoredPipeline>,
}

/// A stored pipeline as its name, id and content.
pub type EntryView = (Seq<char>, Seq<char>, Seq<char>);

pub open spec fn entries_view(v: Seq<StoredPipeline>) -> Seq<EntryView> {
    v.map_values(|e: StoredPipeline| (e.name@, e.id@, e.content@))
}

/// The position of the entry named `name`, if there is one.
pub open spec fn position_of(es: Seq<EntryView>, name: Seq<char>) -> Option<int> {
    if exists|i: int| 0 <= i < es.len() && es[i].0 == name {
        Some(choose|i: int| 0 <= i < es.len() && es[i].0 == name)
    } else {
        None
    }
}

/// The content stored under `name`.
pub open spec fn content_of(es: Seq<EntryView>, name: Seq<char>) -> Option<Seq<char>> {
    match position_of(es, name) {
        Some(i) => Some(es[i].2),
        None => None,
    }
}

pub open spec fn names_unique(es: Seq<EntryView>) -> bool {
    forall|a: int, b: int| 0 <= a < es.len() && 0 <= b < es.len() && a != b ==> es[a].0 != es[b].0
}

/// The name ends in `.yaml` or `.yml`.
pub open spec fn is_yaml(name: Seq<char>) -> bool {
    let n = name.len();
    (n >= 5 && name.subrange(n - 5, n as int) == ".yaml"@) || (n >= 4 && name.subrange(
        n - 4,
        n as int,
    ) == ".yml"@)
}

/// One line per pipeline file, in registration order.
pub open spec fn listing(es: Seq<EntryView>, n: int) -> Seq<char>
    decreases n,
{
    if n <= 0 {
        seq![]
    } else if is_yaml(es[n - 1].0) {
        listing(es, n - 1) + es[n - 1].0 + "\n"@
    } else {
        listing(es, n - 1)
    }
}

fn ends_with(s: &str, suffix: &str) -> (r: bool)
    ensures
        r == (s@.len() >= suffix@.len() && s@.subrange(s@.len() - suffix@.len(), s@.len() as int)
            == suffix@),
{
    let n = s.unicode_len();
    let m = suffix.unicode_len();
    if n < m {
        return false;
    }
    let tail = String::from_str(s.substring_char(n - m, n));
    tail == String::from_str(suffix)
}

/// Whether `name` is the name of a YAML file.
pub fn is_yaml_name(name: &str) -> (r: bool)
    ensures
        r == is_yaml(name@),
{
    proof {
        reveal_strlit(".yaml");
        reveal_strlit(".yml");
    }
    ends_with(name, ".yaml") || ends_with(name, ".yml")
}

/// The file that holds the pipeline named `name`: the name itself when it
/// names a YAML file, else the name with `.yaml` added.
pub open spec fn pipeline_file(name: Seq<char>) -> Seq<char> {
    if is_yaml(name) {
        name
    } else {
        name + ".yaml"@
    }
}

pub fn pipeline_file_name(name: &str) -> (r: String)
    ensures
        r@ == pipeline_file(name@),
{
    if is_yaml_name(name) {
        String::from_str(name)
    } else {
        concat(name, ".yaml")
    }
}

impl View for PipelineStore {
    type V = Seq<EntryView>;

    closed spec fn view(&self) -> Seq<EntryView> {
        entries_view(self.entries@)
    }
}

impl PipelineStore {
    pub open spec fn wf(&self) -> bool {
        names_unique(self@)
    }

    pub fn new() -> (r: PipelineStore)
        ensures
            r.wf(),
            r@.len() == 0,
    {
        let r = PipelineStore { entries: Vec::new() };
        proof {
            assert(entries_view(r.entries@) =~= seq![]);
        }
        r
    }

    fn find(&self, name: &String) -> (r: Option<usize>)
        requires
            self.wf(),
        ensures
            r matches Some(i) ==> i < self@.len() && self@[i as int].0 == name@ && position_of(
                self@,
                name@,
            ) == Some(i as int),
            r is None ==> position_of(self@, name@) is None,
    {
        let mut i: usize = 0;
        while i < self.entries.len()
            invariant
                i <= self.entries@.len(),
                self.wf(),
                forall|k: int| 0 <= k < i ==> self.entries@[k].name@ != name@,
            decreases self.entries@.len() - i,
        {
            if self.entries[i].name == *name {
                proof {
                    assert(self@[i as int].0 == name@);
                    let c = choose|k: int| 0 <= k < self@.len() && self@[k].0 == name@;
                    assert(self@[c].0 == name@);
                    assert(c == i);
                }
                return Some(i);
            }
            i = i + 1;
        }
        proof {
            assert forall|k: int| 0 <= k < self@.len() implies self@[k].0 != name@ by {
                assert(self@[k].0 == self.entries@[k].name@);
            }
        }
        None
    }

    /// Stores `content` under `name`. A name seen for the first time is
    /// registered with `new_id`; a known name keeps its id.
    pub fn push(&mut self, name: String, content: String, new_id: String)
        requires
            old(self).wf(),
        ensures
            final(self).wf(),
            final(self)@ == after_push(old(self)@, name@, content@, new_id@),
            content_of(final(self)@, name@) == Some(content@),
    {
        let ghost pre = self@;
        let ghost (nv, cv, iv) = (name@, content@, new_id@);
        proof {
            lemma_push_then_pull(pre, nv, cv, iv);
        }
        match self.find(&name) {
            Some(i) => {
                let old_entry = self.entries.remove(i);
                let entry = StoredPipeline { name, id: old_entry.id, content };
                self.entries.insert(i, entry);
                proof {
                    assert(self@ =~= after_push(pre, nv, cv, iv));
                }
            },
            None => {
                let entry = StoredPipeline { name, id: new_id, content };
                self.entries.push(entry);
                proof {
                    assert(self@ =~= after_push(pre, nv, cv, iv));
                }
            },
        }
    }

    /// Stores `content` under `name`, registering a name seen for the first
    /// time under a fresh id.
    pub fn push_file(&mut self, name: String, content: String)
        requires
            old(self).wf(),
        ensures
            final(self).wf(),
            content_of(final(self)@, name@) == Some(content@),
            forall|n: Seq<char>|
                n != name@ ==> content_of(final(self)@, n) == content_of(old(self)@, n),
    {
        let ghost (nv, cv) = (name@, content@);
        let id = new_uuid();
        let ghost iv = id@;
        proof {
            lemma_push_then_pull(self@, nv, cv, iv);
        }
        self.push(name, content, id);
    }

    /// The content stored under `name`.
    pub fn pull(&self, name: &String) -> (r: Option<String>)
        requires
            self.wf(),
        ensures
            r matches Some(c) ==> content_of(self@, name@) == Some(c@),
            r is None ==> content_of(self@, name@) is None,
    {
        match self.find(name) {
            Some(i) => Some(self.entries[i].content.clone()),
            None => None,
        }
    }

    /// The id under which `name` is registered.
    pub fn id_of(&self, name: &String) -> (r: Option<String>)
        requires
            self.wf(),
        ensures
            r matches Some(id) ==> (exists|i: int|
                0 <= i < self@.len() && self@[i].0 == name@ && self@[i].1 == id@),
            r is None ==> position_of(self@, name@) is None,
    {
        match self.find(name) {
            Some(i) => Some(self.entries[i].id.clone()),
            None => None,
        }
    }

    /// Forgets the pipeline named `name`; returns whether there was one.
    pub fn remove(&mut self, name: &String) -> (r: bool)
        requires
            old(self).wf(),
        ensures
            final(self).wf(),
            r == (position_of(old(self)@, name@) is Some),
            content_of(final(self)@, name@) is None,
            forall|n: Seq<char>|
                n != name@ ==> content_of(final(self)@, n) == content_of(old(self)@, n),
    {
        match self.find(name) {
            Some(i) => {
                let ghost pre = self@;
                self.entries.remove(i);
                proof {
                    assert(self@ =~= pre.remove(i as int));
                    assert forall|a: int, b: int|
                        0 <= a < self@.len() && 0 <= b < self@.len() && a != b implies self@[a].0
                        != self@[b].0 by {
                        let pa = if a < i { a } else { a + 1 };
                        let pb = if b < i { b } else { b + 1 };
                        assert(self@[a] == pre[pa]);
                        assert(self@[b] == pre[pb]);
                    }
                    assert forall|k: int| 0 <= k < self@.len() implies self@[k].0 != name@ by {
                        let pk = if k < i { k } else { k + 1 };
                        assert(self@[k] == pre[pk]);
                    }
                    assert forall|n: Seq<char>| n != name@ implies content_of(self@, n)
                        == content_of(pre, n) by {
                        lemma_content_after_remove(pre, i as int, n);
                    }
                }
                true
            },
            None => {
                proof {
                    assert(content_of(self@, name@) is None);
                }
                false
            },
        }
    }

    /// The names of the stored pipeline files, one per line, each ended by a
    /// newline; names that are not YAML files are left out.
    pub fn list(&self) -> (r: String)
        ensures
            r@ == listing(self@, self@.len() as int),
    {
        let mut out = String::new();
        let mut i: usize = 0;
        while i < self.entries.len()
            invariant
                i <= self.entries@.len(),
                out@ == listing(self@, i as int),
            decreases self.entries@.len() - i,
        {
            let name = &self.entries[i].name;
            proof {
                assert(self@[i as int].0 == name@);
            }
            if is_yaml_name(name.as_str()) {
                let line = concat(name.as_str(), "\n");
                out.append(line.as_str());
                proof {
                    assert(out@ =~= listing(self@, i as int) + name@ + "\n"@);
                }
            }
            i = i + 1;
        }
        out
    }
}

proof fn lemma_content_at(es: Seq<EntryView>, i: int)
    requires
        names_unique(es),
        0 <= i < es.len(),
    ensures
        position_of(es, es[i].0) == Some(i),
        content_of(es, es[i].0) == Some(es[i].2),
{
    let c = choose|k: int| 0 <= k < es.len() && es[k].0 == es[i].0;
    assert(c == i);
}

proof fn lemma_content_other(pre: Seq<EntryView>, post: Seq<EntryView>, i: int, n: Seq<char>)
    requires
        names_unique(pre),
        names_unique(post),
        0 <= i < pre.len(),
        post.len() == pre.len(),
        post[i].0 == pre[i].0,
        forall|k: int| 0 <= k < pre.len() && k != i ==> post[k] == pre[k],
        n != pre[i].0,
    ensures
        content_of(post, n) == content_of(pre, n),
{
    if exists|k: int| 0 <= k < pre.len() && pre[k].0 == n {
        let k = choose|k: int| 0 <= k < pre.len() && pre[k].0 == n;
        assert(post[k] == pre[k]);
        lemma_content_at(pre, k);
        lemma_content_at(post, k);
    } else {
        assert forall|k: int| 0 <= k < post.len() implies post[k].0 != n by {
            if k != i {
                assert(post[k] == pre[k]);
            }
        }
    }
}

/// Removing one entry leaves what other names hold.
proof fn lemma_content_after_remove(pre: Seq<EntryView>, i: int, n: Seq<char>)
    requires
        names_unique(pre),
        0 <= i < pre.len(),
        n != pre[i].0,
    ensures
        content_of(pre.remove(i), n) == content_of(pre, n),
{
    let post = pre.remove(i);
    assert forall|a: int, b: int| 0 <= a < post.len() && 0 <= b < post.len() && a != b implies post[a].0 != post[b].0 by {
        let pa = if a < i { a } else { a + 1 };
        let pb = if b < i { b } else { b + 1 };
        assert(post[a] == pre[pa]);
        assert(post[b] == pre[pb]);
    }
    if exists|k: int| 0 <= k < pre.len() && pre[k].0 == n {
        let k = choose|k: int| 0 <= k < pre.len() && pre[k].0 == n;
        let pk = if k < i { k } else { k - 1 };
        assert(k != i);
        assert(post[pk] == pre[k]);
        lemma_content_at(pre, k);
        lemma_content_at(post, pk);
    } else {
        assert forall|k: int| 0 <= k < post.len() implies post[k].0 != n by {
            let pk = if k < i { k } else { k + 1 };
            assert(post[k] == pre[pk]);
        }
    }
}

/// The entries after `content` is pushed under `name`: a known name keeps
/// its place and id, a new one is registered at the end with `id`.
pub open spec fn after_push(
    es: Seq<EntryView>,
    name: Seq<char>,
    content: Seq<char>,
    id: Seq<char>,
) -> Seq<EntryView> {
    match position_of(es, name) {
        Some(i) => es.update(i, (name, es[i].1, content)),
        None => es.push((name, id, content)),
    }
}

/// Pushing a pipeline file and then pulling it yields the very content
/// pushed, whatever the store held before; the other files are untouched.
pub proof fn lemma_push_then_pull(
    es: Seq<EntryView>,
    name: Seq<char>,
    content: Seq<char>,
    id: Seq<char>,
)
    requires
        names_unique(es),
    ensures
        names_unique(after_push(es, name, content, id)),
        content_of(after_push(es, name, content, id), name) == Some(content),
        forall|n: Seq<char>|
            n != name ==> content_of(after_push(es, name, content, id), n) == content_of(es, n),
{
    let post = after_push(es, name, content, id);
    match position_of(es, name) {
        Some(i) => {
            assert(0 <= i < es.len() && es[i].0 == name);
            assert forall|a: int, b: int|
                0 <= a < post.len() && 0 <= b < post.len() && a != b implies post[a].0
                != post[b].0 by {
                if a != i {
                    assert(post[a] == es[a]);
                }
                if b != i {
                    assert(post[b] == es[b]);
                }
            }
            lemma_content_at(post, i);
            assert forall|n: Seq<char>| n != name implies content_of(post, n) == content_of(es, n) by {
                lemma_content_other(es, post, i, n);
            }
        },
        None => {
            assert forall|a: int, b: int|
                0 <= a < post.len() && 0 <= b < post.len() && a != b implies post[a].0
                != post[b].0 by {
                if a < es.len() {
                    assert(post[a] == es[a]);
                }
                if b < es.len() {
                    assert(post[b] == es[b]);
                }
            }
            lemma_content_at(post, es.len() as int);
            assert forall|n: Seq<char>| n != name implies content_of(post, n) == content_of(es, n) by {
                if exists|k: int| 0 <= k < es.len() && es[k].0 == n {
                    let k = choose|k: int| 0 <= k < es.len() && es[k].0 == n;
                    assert(post[k] == es[k]);
                    lemma_content_at(es, k);
                    lemma_content_at(post, k);
                } else {
                    assert forall|k: int| 0 <= k < post.len() implies post[k].0 != n by {
                        if k < es.len() {
                            assert(post[k] == es[k]);
                        }
                    }
                }
            }
        },
    }
}

} // verus!
