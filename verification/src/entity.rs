//! The contract that every content node meets, and the list of nodes as a
//! node.
//!
//! A node is parsed from the content tree and rendered into jobs for the
//! render sink. What either does is a function of the node's model, so every
//! node states it as one: `parsed` and `rendered`.

use vstd::prelude::*;
use crate::context::{Context, DataView, Job, JobView};
use crate::error::Failure;
use crate::tree::{EntryView, Tree};

verus! {

/// A content node.
pub trait Entity: DeepView + Sized {
    /// The node as `parse` leaves it, and what `parse` returns.
    spec fn parsed(node: Self::V, tree: Seq<EntryView>, source: Seq<char>) -> (
        Self::V,
        Result<(), Failure>,
    );

    /// The jobs that `render` returns.
    spec fn rendered(node: Self::V, context: Map<Seq<char>, DataView>, dest: Seq<char>) -> Seq<
        JobView,
    >;

    /// Fills the node from the content tree. `source` is the directory of
    /// the tree that the node's own paths are relative to.
    fn parse(&mut self, tree: &Tree, source: &str) -> (r: Result<(), Failure>)
        ensures
            (final(self).deep_view(), r) == Self::parsed(
                old(self).deep_view(),
                tree.deep_view(),
                source@,
            ),
    ;

    /// The invocations of the render sink that put the node under `dest`,
    /// in their order. The node adds its own bindings to `context`.
    fn render(&self, context: Context, dest: &str) -> (jobs: Vec<Job>)
        ensures
            jobs.deep_view() == Self::rendered(self.deep_view(), context.deep_view(), dest@),
    ;
}

/// A list of nodes after the parsing of its first `n` members, in order, and
/// what that parsing returned. The first failure ends it: the members after
/// the one that failed are not parsed.
pub open spec fn parsed_upto<T: Entity>(
    members: Seq<T::V>,
    tree: Seq<EntryView>,
    source: Seq<char>,
    n: nat,
) -> (Seq<T::V>, Result<(), Failure>)
    decreases n,
{
    if n == 0 {
        (members, Ok(()))
    } else {
        let (before, r) = parsed_upto::<T>(members, tree, source, (n - 1) as nat);
        if r is Err {
            (before, r)
        } else {
            let (member, r) = T::parsed(before[n - 1], tree, source);
            (before.update(n - 1, member), r)
        }
    }
}

/// The jobs of the first `n` members of a list of nodes, in order. Each
/// member is rendered with the same context and destination.
pub open spec fn rendered_upto<T: Entity>(
    members: Seq<T::V>,
    context: Map<Seq<char>, DataView>,
    dest: Seq<char>,
    n: nat,
) -> Seq<JobView>
    decreases n,
{
    if n == 0 {
        Seq::empty()
    } else {
        rendered_upto::<T>(members, context, dest, (n - 1) as nat) + T::rendered(
            members[n - 1],
            context,
            dest,
        )
    }
}

/// There is one success.
pub proof fn lemma_ok_is_unit(r: Result<(), Failure>)
    requires
        r is Ok,
    ensures
        r == Ok::<(), Failure>(()),
{
    let unit = r->Ok_0;
}

/// `after` is `before` parsed, and the parsing succeeded.
pub open spec fn parsed_well<T: Entity>(
    before: T::V,
    after: T::V,
    tree: Seq<EntryView>,
    source: Seq<char>,
) -> bool {
    T::parsed(before, tree, source).0 == after && T::parsed(before, tree, source).1 is Ok
}

/// Parsing a list fails fast.
///
/// After the first `n` members: the list is as long as before and the
/// members from `n` on are untouched. Where the parsing succeeded, each of
/// the first `n` members was parsed and succeeded. Where it failed, one
/// member failed with that failure, those before it were parsed and
/// succeeded, and those after it are untouched.
pub proof fn lemma_parse_fails_fast<T: Entity>(
    members: Seq<T::V>,
    tree: Seq<EntryView>,
    source: Seq<char>,
    n: nat,
)
    requires
        n <= members.len(),
    ensures
        ({
            let (after, r) = parsed_upto::<T>(members, tree, source, n);
            &&& after.len() == members.len()
            &&& forall|j: int| n <= j < members.len() ==> after[j] == members[j]
            &&& r is Ok ==> forall|j: int|
                0 <= j < n ==> parsed_well::<T>(#[trigger] members[j], after[j], tree, source)
            &&& r is Err ==> exists|i: int|
                {
                    &&& 0 <= i < n
                    &&& T::parsed(#[trigger] members[i], tree, source) == (after[i], r)
                    &&& forall|j: int|
                        0 <= j < i ==> parsed_well::<T>(
                            #[trigger] members[j],
                            after[j],
                            tree,
                            source,
                        )
                    &&& forall|j: int| i < j < members.len() ==> after[j] == members[j]
                }
        }),
    decreases n,
{
    if n > 0 {
        lemma_parse_fails_fast::<T>(members, tree, source, (n - 1) as nat);
        let (before, r0) = parsed_upto::<T>(members, tree, source, (n - 1) as nat);
        let (after, r) = parsed_upto::<T>(members, tree, source, n);
        if r0 is Err {
            let i = choose|i: int|
                {
                    &&& 0 <= i < n - 1
                    &&& T::parsed(#[trigger] members[i], tree, source) == (before[i], r0)
                    &&& forall|j: int|
                        0 <= j < i ==> parsed_well::<T>(
                            #[trigger] members[j],
                            before[j],
                            tree,
                            source,
                        )
                    &&& forall|j: int| i < j < members.len() ==> before[j] == members[j]
                };
            assert(T::parsed(members[i], tree, source) == (after[i], r));
        } else {
            assert(before[n - 1] == members[n - 1]);
            if r is Err {
                assert(T::parsed(members[n - 1], tree, source) == (after[n - 1], r));
            } else {
                assert forall|j: int| 0 <= j < n implies parsed_well::<T>(
                    #[trigger] members[j],
                    after[j],
                    tree,
                    source,
                ) by {
                    if j < n - 1 {
                        assert(parsed_well::<T>(members[j], before[j], tree, source));
                    }
                }
            }
        }
    }
}

/// Once the parsing of a list has failed, it goes no further.
pub proof fn lemma_parse_stops<T: Entity>(
    members: Seq<T::V>,
    tree: Seq<EntryView>,
    source: Seq<char>,
    n: nat,
    m: nat,
)
    requires
        n <= m,
        parsed_upto::<T>(members, tree, source, n).1 is Err,
    ensures
        parsed_upto::<T>(members, tree, source, m) == parsed_upto::<T>(members, tree, source, n),
    decreases m,
{
    if n < m {
        lemma_parse_stops::<T>(members, tree, source, n, (m - 1) as nat);
    }
}

impl<T: Entity> Entity for Vec<T> {
    /// The members are parsed in order, each against the same source, up to
    /// the first that fails.
    open spec fn parsed(members: Seq<T::V>, tree: Seq<EntryView>, source: Seq<char>) -> (
        Seq<T::V>,
        Result<(), Failure>,
    ) {
        parsed_upto::<T>(members, tree, source, members.len())
    }

    /// The members are rendered in order, each with the context and the
    /// destination that the list was given.
    open spec fn rendered(
        members: Seq<T::V>,
        context: Map<Seq<char>, DataView>,
        dest: Seq<char>,
    ) -> Seq<JobView> {
        rendered_upto::<T>(members, context, dest, members.len())
    }

    fn parse(&mut self, tree: &Tree, source: &str) -> (r: Result<(), Failure>) {
        let ghost members = self.deep_view();
        let mut i: usize = 0;
        while i < self.len()
            invariant
                i <= self.len(),
                self.len() == members.len(),
                members == old(self).deep_view(),
                parsed_upto::<T>(members, tree.deep_view(), source@, i as nat).0
                    == self.deep_view(),
                parsed_upto::<T>(members, tree.deep_view(), source@, i as nat).1 is Ok,
            decreases self.len() - i,
        {
            let ghost before = self.deep_view();
            assert(before[i as int] == self[i as int].deep_view());
            let r = self[i].parse(tree, source);
            assert(self.deep_view() =~= before.update(i as int, self[i as int].deep_view()));
            assert((self.deep_view(), r) == parsed_upto::<T>(
                members,
                tree.deep_view(),
                source@,
                (i + 1) as nat,
            ));
            match r {
                Err(failure) => {
                    proof {
                        lemma_parse_stops::<T>(
                            members,
                            tree.deep_view(),
                            source@,
                            (i + 1) as nat,
                            members.len(),
                        );
                    }
                    return Err(failure);
                },
                Ok(()) => {},
            }
            i += 1;
        }
        proof {
            lemma_ok_is_unit(parsed_upto::<T>(members, tree.deep_view(), source@, i as nat).1);
        }
        Ok(())
    }

    fn render(&self, context: Context, dest: &str) -> (jobs: Vec<Job>) {
        let mut jobs: Vec<Job> = Vec::new();
        let mut i: usize = 0;
        assert(jobs.deep_view() =~= Seq::<JobView>::empty());
        while i < self.len()
            invariant
                i <= self.len(),
                jobs.deep_view() == rendered_upto::<T>(
                    self.deep_view(),
                    context.deep_view(),
                    dest@,
                    i as nat,
                ),
            decreases self.len() - i,
        {
            let ghost before = jobs.deep_view();
            let mut more = self[i].render(context.clone(), dest);
            let ghost added = more.deep_view();
            jobs.append(&mut more);
            assert(jobs.deep_view() =~= before + added);
            i += 1;
        }
        jobs
    }
}

} // verus!
