//! The table of bound names.
//!
//! A table is a chain of frames. Each frame holds the names bound in one
//! scope, in the order in which they were bound. A table is forked where a
//! nested scope begins: the fork has a frame of its own, empty at first, and
//! behind it the frames of the table it was forked from. It reads those
//! frames and never writes to them.
//!
//! A table is modelled by its chain: `table@` is the sequence of its frames,
//! the table's own frame first, the outermost last.
use vstd::prelude::*;
use crate::compiler_tools;
use crate::compiler_tools::Scope;
use crate::text::same_text;

verus! {

/// A name and the place in the environment that it is bound to.
pub struct Binding {
    /// The name.
    pub name: Seq<char>,
    /// The level in the environment and the position within the level.
    pub index: compiler_tools::Index,
}

/// How many bindings of a frame lie at `level`.
pub open spec fn bound_at_level(frame: Seq<Binding>, level: u64) -> nat
    decreases frame.len(),
{
    if frame.len() == 0 {
        0
    } else if frame.last().index.0 == level {
        bound_at_level(frame.drop_last(), level) + 1
    } else {
        bound_at_level(frame.drop_last(), level)
    }
}

/// What a frame binds `name` to: the binding made last counts.
pub open spec fn find_in_frame(frame: Seq<Binding>, name: Seq<char>) -> Option<
    compiler_tools::Index,
>
    decreases frame.len(),
{
    if frame.len() == 0 {
        None
    } else if frame.last().name == name {
        Some(frame.last().index)
    } else {
        find_in_frame(frame.drop_last(), name)
    }
}

/// What a chain of frames binds `name` to: the first frame that binds the
/// name counts.
pub open spec fn find(chain: Seq<Seq<Binding>>, name: Seq<char>) -> Option<
    compiler_tools::Index,
>
    decreases chain.len(),
{
    if chain.len() == 0 {
        None
    } else {
        match find_in_frame(chain.first(), name) {
            Some(index) => Some(index),
            None => find(chain.drop_first(), name),
        }
    }
}

/// Whether the positions of a frame were given out in order: each binding
/// has the position that counts the bindings made before it at its level.
pub open spec fn in_order(frame: Seq<Binding>) -> bool {
    forall|i: int|
        0 <= i < frame.len() ==> (#[trigger] frame[i]).index.1 == bound_at_level(
            frame.take(i),
            frame[i].index.0,
        )
}

/// Whether the positions of every frame of a chain were given out in order.
pub open spec fn all_in_order(chain: Seq<Seq<Binding>>) -> bool {
    forall|k: int| 0 <= k < chain.len() ==> in_order(#[trigger] chain[k])
}

/// The chain after `name` was bound to `index` in its first frame.
pub open spec fn bound(
    chain: Seq<Seq<Binding>>,
    name: Seq<char>,
    index: compiler_tools::Index,
) -> Seq<Seq<Binding>>
    recommends
        chain.len() > 0,
{
    chain.update(0, chain.first().push(Binding { name, index }))
}

/// The chain of a table forked from a table with the chain `chain`.
pub open spec fn forked(chain: Seq<Seq<Binding>>) -> Seq<Seq<Binding>> {
    seq![Seq::<Binding>::empty()] + chain
}

/// A binding as a table holds it.
struct Entry<'a> {
    name: &'a str,
    index: compiler_tools::Index,
}

impl<'a> Entry<'a> {
    /// The binding that the entry stands for.
    spec fn binding(self) -> Binding {
        Binding { name: self.name@, index: self.index }
    }
}

/// The bindings that the entries of a frame stand for.
spec fn bindings<'a>(entries: Seq<Entry<'a>>) -> Seq<Binding> {
    entries.map_values(|entry: Entry<'a>| entry.binding())
}

/// A table of bound names.
pub struct ForkTable<'a> {
    table: Vec<Entry<'a>>,
    parent: Option<&'a ForkTable<'a>>,
}

impl<'a> ForkTable<'a> {
    /// The bindings of the table's own frame, the oldest first.
    pub closed spec fn frame(&self) -> Seq<Binding> {
        bindings(self.table@)
    }

    /// The frames of the table: its own first, then those of the table it
    /// was forked from.
    pub closed spec fn chain(&self) -> Seq<Seq<Binding>>
        decreases self,
    {
        seq![self.frame()] + match self.parent {
            Some(parent) => parent.chain(),
            None => Seq::empty(),
        }
    }

    #[verifier::type_invariant]
    spec fn positions_in_order(&self) -> bool
        decreases self,
    {
        in_order(self.frame()) && match self.parent {
            Some(parent) => parent.positions_in_order(),
            None => true,
        }
    }

    /// The positions of every frame of a table are in order.
    proof fn lemma_chain_in_order(&self)
        requires
            self.positions_in_order(),
        ensures
            all_in_order(self.chain()),
        decreases self,
    {
        match self.parent {
            Some(parent) => {
                parent.lemma_chain_in_order();
                assert forall|k: int| 0 <= k < self.chain().len() implies in_order(
                    #[trigger] self.chain()[k],
                ) by {
                    if k > 0 {
                        assert(self.chain()[k] == parent.chain()[k - 1]);
                    }
                }
            },
            None => {},
        }
    }

    /// A table has a frame of its own.
    pub proof fn lemma_has_frame(&self)
        ensures
            self@.len() > 0,
    {
    }

    /// A table with one empty frame.
    pub fn new() -> (table: Self)
        ensures
            table@ == seq![Seq::<Binding>::empty()],
            all_in_order(table@),
    {
        let table = ForkTable { table: Vec::new(), parent: None };
        proof {
            assert(table.frame() =~= Seq::<Binding>::empty());
            table.lemma_chain_in_order();
        }
        table
    }

    /// A table for a nested scope: it has an empty frame of its own, and
    /// behind it the frames of this table.
    pub fn fork<'b>(&'b self) -> (child: ForkTable<'b>)
        ensures
            child@ == forked(self@),
            all_in_order(child@),
    {
        proof {
            use_type_invariant(self);
        }
        let child = ForkTable { table: Vec::new(), parent: Some(self) };
        proof {
            assert(child.frame() =~= Seq::<Binding>::empty());
            child.lemma_chain_in_order();
        }
        child
    }

    /// What the table's own frame binds `name` to.
    fn lookup_here(&self, name: &str) -> (found: Option<compiler_tools::Index>)
        ensures
            found == find_in_frame(self.frame(), name@),
    {
        let mut left: usize = self.table.len();
        proof {
            assert(self.frame().take(left as int) =~= self.frame());
        }
        while left > 0
            invariant
                left <= self.table@.len(),
                find_in_frame(self.frame(), name@) == find_in_frame(
                    self.frame().take(left as int),
                    name@,
                ),
            decreases left,
        {
            proof {
                let seen = self.frame().take(left as int);
                assert(seen.drop_last() =~= self.frame().take(left - 1));
                assert(seen.last() == self.table@[left - 1].binding());
            }
            left = left - 1;
            if same_text(self.table[left].name, name) {
                return Some(self.table[left].index);
            }
        }
        proof {
            assert(self.frame().take(0) =~= Seq::<Binding>::empty());
        }
        None
    }

    /// How many bindings of the table's own frame lie at `level`.
    fn count_at_level(&self, level: u64) -> (count: usize)
        ensures
            count == bound_at_level(self.frame(), level),
    {
        let mut count: usize = 0;
        let mut i: usize = 0;
        while i < self.table.len()
            invariant
                i <= self.table@.len(),
                count <= i,
                count == bound_at_level(self.frame().take(i as int), level),
            decreases self.table@.len() - i,
        {
            proof {
                let seen = self.frame().take(i + 1);
                assert(seen.drop_last() =~= self.frame().take(i as int));
                assert(seen.last() == self.table@[i as int].binding());
            }
            if self.table[i].index.0 == level {
                count = count + 1;
            }
            i = i + 1;
        }
        proof {
            assert(self.frame().take(i as int) =~= self.frame());
        }
        count
    }
}

impl<'a> View for ForkTable<'a> {
    type V = Seq<Seq<Binding>>;

    open spec fn view(&self) -> Seq<Seq<Binding>> {
        self.chain()
    }
}

impl<'a> Scope<&'a str> for ForkTable<'a> {
    /// Binds `name` in the table's own frame, at the level `lvl` and at the
    /// next free position of that level: the number of bindings that the
    /// frame holds at that level already. A name that the frame binds
    /// already is bound anew, and the older binding is hidden. The frames
    /// behind the table's own stay as they are.
    fn bind(&mut self, name: &'a str, lvl: u64) -> (index: compiler_tools::Index)
        ensures
            index == (lvl, bound_at_level(old(self)@.first(), lvl) as u64),
            bound_at_level(old(self)@.first(), lvl) <= u64::MAX,
            final(self)@ == bound(old(self)@, name@, index),
            final(self)@.len() == old(self)@.len() > 0,
            all_in_order(final(self)@),
    {
        proof {
            use_type_invariant(&*self);
        }
        let position = self.count_at_level(lvl);
        let index: compiler_tools::Index = (lvl, position as u64);
        let ghost before = self.frame();
        // The frame is taken out of the table, extended, and put back, so
        // that the table is in order at every moment.
        let mut table: Vec<Entry<'a>> = Vec::new();
        proof {
            assert(bindings(table@) =~= Seq::<Binding>::empty());
        }
        std::mem::swap(&mut table, &mut self.table);
        table.push(Entry { name, index });
        proof {
            assert(bindings(table@) =~= before.push(Binding { name: name@, index }));
            lemma_bind_keeps_order(before, name@, lvl);
        }
        self.table = table;
        proof {
            assert(self.chain() =~= bound(old(self).chain(), name@, index));
            self.lemma_chain_in_order();
        }
        index
    }

    /// What the table binds `name` to: the binding of the nearest frame that
    /// binds the name, or `None` if no frame does. The table is one whose
    /// positions are in order, as every table is.
    fn lookup(&self, name: &&'a str) -> (found: Option<compiler_tools::Index>)
        ensures
            found == find(self@, name@),
            all_in_order(self@),
    {
        proof {
            use_type_invariant(self);
            self.lemma_chain_in_order();
        }
        let mut table = self;
        loop
            invariant
                all_in_order(self@),
                find(self@, name@) == find(table@, name@),
            decreases table@.len(),
        {
            proof {
                assert(table.chain().first() == table.frame());
                assert(table.chain().drop_first() =~= match table.parent {
                    Some(parent) => parent.chain(),
                    None => Seq::empty(),
                });
            }
            match table.lookup_here(*name) {
                Some(index) => {
                    return Some(index);
                },
                None => match table.parent {
                    Some(parent) => {
                        table = parent;
                    },
                    None => {
                        proof {
                            assert(find(Seq::<Seq<Binding>>::empty(), name@) is None);
                        }
                        return None;
                    },
                },
            }
        }
    }
}

/// A binding made at the next free position keeps the positions of a frame
/// in order.
pub proof fn lemma_bind_keeps_order(frame: Seq<Binding>, name: Seq<char>, level: u64)
    requires
        in_order(frame),
        bound_at_level(frame, level) <= u64::MAX,
    ensures
        in_order(frame.push(Binding { name, index: (level, bound_at_level(frame, level) as u64) })),
{
    let added = Binding { name, index: (level, bound_at_level(frame, level) as u64) };
    let after = frame.push(added);
    assert forall|i: int| 0 <= i < after.len() implies (#[trigger] after[i]).index.1
        == bound_at_level(after.take(i), after[i].index.0) by {
        if i < frame.len() {
            assert(after.take(i) =~= frame.take(i));
            assert(after[i] == frame[i]);
        } else {
            assert(after.take(i) =~= frame);
        }
    }
}

/// A name that was bound is found, with the place it was bound to, whatever
/// the frames held before: a binding hides every older binding of the name,
/// in the same frame and in the frames behind it.
pub proof fn lemma_bind_then_lookup(
    chain: Seq<Seq<Binding>>,
    name: Seq<char>,
    index: compiler_tools::Index,
)
    requires
        chain.len() > 0,
    ensures
        find(bound(chain, name, index), name) == Some(index),
{
    let frame = chain.first().push(Binding { name, index });
    assert(bound(chain, name, index).first() == frame);
    assert(frame.last().name == name);
}

/// A binding leaves what every other name is bound to as it was.
pub proof fn lemma_bind_keeps_others(
    chain: Seq<Seq<Binding>>,
    name: Seq<char>,
    index: compiler_tools::Index,
    other: Seq<char>,
)
    requires
        chain.len() > 0,
        other != name,
    ensures
        find(bound(chain, name, index), other) == find(chain, other),
{
    let frame = chain.first().push(Binding { name, index });
    assert(bound(chain, name, index).first() == frame);
    assert(frame.drop_last() =~= chain.first());
    assert(bound(chain, name, index).drop_first() =~= chain.drop_first());
}

/// A binding writes to the first frame alone: the frames behind it stay as
/// they are.
pub proof fn lemma_bind_keeps_parent(
    chain: Seq<Seq<Binding>>,
    name: Seq<char>,
    index: compiler_tools::Index,
)
    requires
        chain.len() > 0,
    ensures
        bound(chain, name, index).drop_first() == chain.drop_first(),
{
    assert(bound(chain, name, index).drop_first() =~= chain.drop_first());
}

/// A fresh fork binds every name to what the table it was forked from binds
/// it to.
pub proof fn lemma_fork_sees_parent(chain: Seq<Seq<Binding>>, name: Seq<char>)
    ensures
        find(forked(chain), name) == find(chain, name),
{
    assert(forked(chain).first() =~= Seq::<Binding>::empty());
    assert(forked(chain).drop_first() =~= chain);
}

/// A name bound in a fork hides the binding of the same name in the table
/// that the fork was made from, in the fork; the other table binds the name
/// as before.
pub proof fn lemma_shadowing(
    parent: Seq<Seq<Binding>>,
    name: Seq<char>,
    index: compiler_tools::Index,
)
    ensures
        find(bound(forked(parent), name, index), name) == Some(index),
        find(bound(forked(parent), name, index).drop_first(), name) == find(parent, name),
{
    lemma_bind_then_lookup(forked(parent), name, index);
    lemma_bind_keeps_parent(forked(parent), name, index);
    assert(forked(parent).drop_first() =~= parent);
}

/// A frame binds a name exactly when one of its bindings has the name, and
/// then to the place of one of them.
pub proof fn lemma_find_in_frame(frame: Seq<Binding>, name: Seq<char>)
    ensures
        find_in_frame(frame, name) is None <==> forall|i: int|
            0 <= i < frame.len() ==> (#[trigger] frame[i]).name != name,
        find_in_frame(frame, name) matches Some(index) ==> exists|i: int|
            0 <= i < frame.len() && (#[trigger] frame[i]).name == name && frame[i].index == index,
    decreases frame.len(),
{
    if frame.len() > 0 {
        let before = frame.drop_last();
        lemma_find_in_frame(before, name);
        if frame.last().name == name {
            assert(frame[frame.len() - 1].name == name);
        } else {
            assert forall|i: int| 0 <= i < before.len() implies before[i] == frame[i] by {}
            if find_in_frame(before, name) is None {
                assert forall|i: int| 0 <= i < frame.len() implies (#[trigger] frame[i]).name
                    != name by {
                    if i < before.len() {
                        assert(before[i].name != name);
                    }
                }
            } else {
                let i = choose|i: int|
                    0 <= i < before.len() && (#[trigger] before[i]).name == name && before[i].index
                        == find_in_frame(before, name)->0;
                assert(frame[i].name == name && frame[i].index == find_in_frame(frame, name)->0);
            }
        }
    }
}

/// A name is unbound exactly when no frame of the chain holds a binding of
/// it.
pub proof fn lemma_unbound(chain: Seq<Seq<Binding>>, name: Seq<char>)
    ensures
        find(chain, name) is None <==> forall|k: int, i: int|
            0 <= k < chain.len() && 0 <= i < chain[k].len() ==> (#[trigger] chain[k][i]).name
                != name,
    decreases chain.len(),
{
    if chain.len() > 0 {
        let behind = chain.drop_first();
        lemma_unbound(behind, name);
        lemma_find_in_frame(chain.first(), name);
        assert forall|k: int| 0 <= k < behind.len() implies behind[k] == chain[k + 1] by {}
        if find(chain, name) is None {
            assert forall|k: int, i: int|
                0 <= k < chain.len() && 0 <= i < chain[k].len() implies (#[trigger] chain[k][i]).name
                != name by {
                if k > 0 {
                    assert(behind[k - 1][i].name != name);
                }
            }
        } else if find_in_frame(chain.first(), name) is None {
            let (k, i) = choose|k: int, i: int|
                0 <= k < behind.len() && 0 <= i < behind[k].len() && (#[trigger] behind[k][i]).name
                    == name;
            assert(chain[k + 1][i].name == name);
        } else {
            let i = choose|i: int|
                0 <= i < chain.first().len() && (#[trigger] chain.first()[i]).name == name;
            assert(chain[0][i].name == name);
        }
    }
}

/// The count of the bindings at a level does not fall when a frame grows.
pub proof fn lemma_count_grows(frame: Seq<Binding>, n: int, level: u64)
    requires
        0 <= n <= frame.len(),
    ensures
        bound_at_level(frame.take(n), level) <= bound_at_level(frame, level),
    decreases frame.len() - n,
{
    if n < frame.len() {
        lemma_count_grows(frame, n + 1, level);
        assert(frame.take(n + 1).drop_last() =~= frame.take(n));
    } else {
        assert(frame.take(n) =~= frame);
    }
}

/// Positions are not given out twice: two bindings of a frame in order that
/// lie at the same level have different positions.
pub proof fn lemma_positions_differ(frame: Seq<Binding>, i: int, j: int)
    requires
        in_order(frame),
        0 <= i < j < frame.len(),
        frame[i].index.0 == frame[j].index.0,
    ensures
        frame[i].index.1 < frame[j].index.1,
{
    let level = frame[i].index.0;
    let earlier = frame.take(j);
    lemma_count_grows(earlier, i + 1, level);
    assert(earlier.take(i + 1).drop_last() =~= frame.take(i));
    assert(earlier.take(i + 1).last() == frame[i]);
}

} // verus!
