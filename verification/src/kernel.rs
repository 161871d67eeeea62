//! The shared variable environment: named values bound during execution and
//! visible to everything executed later in the same session.

use vstd::prelude::*;
use crate::schema::{Node, NodeV, clone_node, node_view};
use crate::text::str_eq;

verus! {

/// One binding: the last-set value of a named variable, with the language it
/// was set under.
pub struct Variable {
    pub name: String,
    pub value: Node,
    pub language: Option<String>,
}

/// The variable environment shared across one document execution session.
/// Later bindings of a name shadow earlier ones.
pub struct KernelSet {
    pub entries: Vec<Variable>,
}

/// The mapping from variable name to last-set value.
pub open spec fn kernel_map(s: Seq<Variable>) -> Map<Seq<char>, NodeV>
    decreases s.len(),
{
    if s.len() == 0 {
        Map::empty()
    } else {
        kernel_map(s.drop_last()).insert(s.last().name@, node_view(s.last().value))
    }
}

impl View for KernelSet {
    type V = Map<Seq<char>, NodeV>;

    open spec fn view(&self) -> Map<Seq<char>, NodeV> {
        kernel_map(self.entries@)
    }
}

pub proof fn lemma_kernel_map_prefix(s: Seq<Variable>, i: int, name: Seq<char>)
    requires
        0 <= i <= s.len(),
        forall|k: int| i <= k < s.len() ==> s[k].name@ != name,
    ensures
        kernel_map(s).contains_key(name) == kernel_map(s.subrange(0, i)).contains_key(name),
        kernel_map(s).contains_key(name) ==> kernel_map(s)[name] == kernel_map(
            s.subrange(0, i),
        )[name],
    decreases s.len() - i,
{
    if i == s.len() {
        assert(s.subrange(0, i) =~= s);
    } else {
        lemma_kernel_map_prefix(s.drop_last(), i, name);
        assert(s.drop_last() =~= s.subrange(0, s.len() - 1));
        assert(s.drop_last().subrange(0, i) =~= s.subrange(0, i));
    }
}

impl KernelSet {
    /// An empty environment.
    pub fn new() -> (r: KernelSet)
        ensures
            r@ == Map::<Seq<char>, NodeV>::empty(),
    {
        KernelSet { entries: Vec::new() }
    }

    /// Looks a variable up by name, yielding its last-set value.
    pub fn get(&self, name: &str) -> (r: Option<Node>)
        ensures
            match r {
                Some(n) => self@.contains_key(name@) && n@ == self@[name@],
                None => !self@.contains_key(name@),
            },
    {
        let mut i: usize = self.entries.len();
        while i > 0
            invariant
                i <= self.entries.len(),
                forall|k: int| i <= k < self.entries@.len() ==> self.entries@[k].name@ != name@,
            decreases i,
        {
            if str_eq(self.entries[i - 1].name.as_str(), name) {
                let v = clone_node(&self.entries[i - 1].value);
                proof {
                    lemma_kernel_map_prefix(self.entries@, i as int, name@);
                    let pre = self.entries@.subrange(0, i as int);
                    assert(pre.last() == self.entries@[i - 1]);
                    assert(pre.drop_last() =~= self.entries@.subrange(0, i - 1));
                    assert(kernel_map(pre).contains_key(name@));
                    assert(kernel_map(pre)[name@] == node_view(self.entries@[i - 1].value));
                }
                return Some(v);
            }
            i = i - 1;
        }
        proof {
            lemma_kernel_map_prefix(self.entries@, 0, name@);
            assert(self.entries@.subrange(0, 0) =~= Seq::<Variable>::empty());
        }
        None
    }

    /// Binds a value to a name, shadowing any earlier binding. The language
    /// is recorded with the binding.
    pub fn set(&mut self, name: &str, value: Node, language: Option<String>)
        ensures
            final(self)@ == old(self)@.insert(name@, node_view(value)),
    {
        let ghost v = node_view(value);
        self.entries.push(Variable { name: String::from_str(name), value, language });
        proof {
            assert(self.entries@.drop_last() =~= old(self).entries@);
            assert(self.entries@.last().name@ == name@);
            assert(node_view(self.entries@.last().value) == v);
        }
    }

    /// The number of bindings ever made (shadowed ones included).
    pub fn len(&self) -> (r: usize)
        ensures
            r == self.entries@.len(),
    {
        self.entries.len()
    }
}

} // verus!
