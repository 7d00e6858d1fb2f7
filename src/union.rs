//! Union types: an ordered registry of member types, each with the predicate that
//! recognises its values, and resolution of a runtime value to one member.
use vstd::prelude::*;

use crate::registry::{TypeHandle, TypeRegistry};

verus! {

/// One member of a union: its type name, the predicate that recognises its values
/// (giving the value seen as that member), and the member's own execution entry point.
pub struct UnionMember<P, E> {
    pub name: String,
    pub predicate: P,
    pub execute: E,
}

/// A union type: its name, an optional description, and its members in declaration order.
pub struct UnionType<P, E> {
    pub name: String,
    pub description: Option<String>,
    pub members: Vec<UnionMember<P, E>>,
}

/// The introspection descriptor of a union: its name, its description, and a handle
/// on each member type, in declaration order.
pub struct UnionMeta {
    pub name: String,
    pub description: Option<String>,
    pub members: Vec<TypeHandle>,
}

/// Some run of the predicate `p` on `(ctx, value)` may give a value.
pub open spec fn may_match<C, S, R, P: Fn(&C, &S) -> Option<R>>(p: P, ctx: &C, value: &S) -> bool {
    exists|o: Option<R>| call_ensures(p, (ctx, value), o) && o is Some
}

/// Some run of the predicate `p` on `(ctx, value)` may give nothing.
pub open spec fn may_miss<C, S, R, P: Fn(&C, &S) -> Option<R>>(p: P, ctx: &C, value: &S) -> bool {
    exists|o: Option<R>| call_ensures(p, (ctx, value), o) && o is None
}

/// Every run of the predicate `p` on `(ctx, value)` gives a value.
pub open spec fn must_match<C, S, R, P: Fn(&C, &S) -> Option<R>>(p: P, ctx: &C, value: &S) -> bool {
    forall|o: Option<R>| call_ensures(p, (ctx, value), o) ==> o is Some
}

/// Every run of the predicate `p` on `(ctx, value)` gives nothing.
pub open spec fn must_miss<C, S, R, P: Fn(&C, &S) -> Option<R>>(p: P, ctx: &C, value: &S) -> bool {
    forall|o: Option<R>| call_ensures(p, (ctx, value), o) ==> o is None
}

impl<P, E> UnionType<P, E> {
    /// Every member has a non-empty type name.
    pub open spec fn wf(&self) -> bool {
        forall|i: int| 0 <= i < self.members@.len() ==> (#[trigger] self.members@[i]).name@.len() > 0
    }

    /// A union with no members yet.
    pub fn new(name: String) -> (r: Self)
        ensures
            r.name == name,
            r.description is None,
            r.members@.len() == 0,
            r.wf(),
    {
        UnionType { name, description: None, members: Vec::new() }
    }

    /// The same union with the given description.
    pub fn with_description(self, description: String) -> (r: Self)
        ensures
            r.name == self.name,
            r.description == Some(description),
            r.members == self.members,
    {
        UnionType { name: self.name, description: Some(description), members: self.members }
    }

    /// The same union with one more member, declared after the others.
    pub fn with_member(self, name: String, predicate: P, execute: E) -> (r: Self)
        requires
            self.wf(),
            name@.len() > 0,
        ensures
            r.wf(),
            r.name == self.name,
            r.description == self.description,
            r.members@ == self.members@.push((UnionMember { name, predicate, execute })),
    {
        let mut members = self.members;
        members.push(UnionMember { name, predicate, execute });
        UnionType { name: self.name, description: self.description, members }
    }
}

impl<P, E> UnionType<P, E> {
    /// Member `k` is the one a value resolves to: its predicate gave a value, and the
    /// predicate of every member declared before it gave nothing.
    pub open spec fn resolves_to<C, S, R>(&self, ctx: &C, value: &S, k: int) -> bool
        where P: Fn(&C, &S) -> Option<R>
    {
        &&& 0 <= k < self.members@.len()
        &&& may_match(self.members@[k].predicate, ctx, value)
        &&& forall|j: int| 0 <= j < k ==> may_miss(#[trigger] self.members@[j].predicate, ctx, value)
    }

    /// Member `k` is the first one, in declaration order, named `name`.
    pub open spec fn first_named(&self, name: Seq<char>, k: int) -> bool {
        &&& 0 <= k < self.members@.len()
        &&& self.members@[k].name@ == name
        &&& forall|j: int| 0 <= j < k ==> (#[trigger] self.members@[j]).name@ != name
    }

    /// Every predicate may be run on `(ctx, value)`.
    pub open spec fn predicates_accept<C, S, R>(&self, ctx: &C, value: &S) -> bool
        where P: Fn(&C, &S) -> Option<R>
    {
        forall|i: int| 0 <= i < self.members@.len() ==> call_requires(
            #[trigger] self.members@[i].predicate,
            (ctx, value),
        )
    }

    /// Runs the predicates in declaration order and stops at the first that gives a
    /// value; gives that member's index, or `None` when every predicate gave nothing.
    pub fn find_instance<C, S, R>(&self, ctx: &C, value: &S) -> (r: Option<usize>)
        where P: Fn(&C, &S) -> Option<R>
        requires
            self.predicates_accept(ctx, value),
        ensures
            match r {
                Some(k) => self.resolves_to(ctx, value, k as int),
                None => forall|j: int|
                    0 <= j < self.members@.len() ==> may_miss(
                        #[trigger] self.members@[j].predicate,
                        ctx,
                        value,
                    ),
            },
    {
        let mut i: usize = 0;
        while i < self.members.len()
            invariant
                self.predicates_accept(ctx, value),
                i <= self.members@.len(),
                forall|j: int| 0 <= j < i ==> may_miss(#[trigger] self.members@[j].predicate, ctx, value),
            decreases self.members@.len() - i,
        {
            let o = (self.members[i].predicate)(ctx, value);
            if o.is_some() {
                return Some(i);
            }
            i = i + 1;
        }
        None
    }

    /// The name of the member a value resolves to: the first, in declaration order,
    /// whose predicate gives a value. The members must cover the value: a value that
    /// no predicate recognises is a fault in how the union was declared.
    pub fn concrete_type_name<C, S, R>(&self, ctx: &C, value: &S) -> (r: String)
        where P: Fn(&C, &S) -> Option<R>
        requires
            self.wf(),
            self.predicates_accept(ctx, value),
            exists|k: int|
                0 <= k < self.members@.len() && must_match(
                    #[trigger] self.members@[k].predicate,
                    ctx,
                    value,
                ),
        ensures
            exists|k: int| self.resolves_to(ctx, value, k) && r@ == self.members@[k].name@,
            r@.len() > 0,
    {
        match self.find_instance(ctx, value) {
            Some(k) => {
                assert(self.members@[k as int].name@.len() > 0);
                self.members[k].name.clone()
            },
            None => {
                proof {
                    let k = choose|k: int|
                        0 <= k < self.members@.len() && must_match(
                            #[trigger] self.members@[k].predicate,
                            ctx,
                            value,
                        );
                    assert(may_miss(self.members@[k].predicate, ctx, value));
                }
                unreached()
            },
        }
    }

    /// The index of the first member, in declaration order, named `name`.
    pub fn member_index(&self, name: &str) -> (r: Option<usize>)
        ensures
            match r {
                Some(k) => self.first_named(name@, k as int),
                None => forall|j: int|
                    0 <= j < self.members@.len() ==> (#[trigger] self.members@[j]).name@ != name@,
            },
    {
        let wanted = name.to_owned();
        let mut i: usize = 0;
        while i < self.members.len()
            invariant
                wanted@ == name@,
                i <= self.members@.len(),
                forall|j: int| 0 <= j < i ==> (#[trigger] self.members@[j]).name@ != name@,
            decreases self.members@.len() - i,
        {
            if self.members[i].name == wanted {
                return Some(i);
            }
            i = i + 1;
        }
        None
    }

    /// Executes `selection` on a value as the member named `name`: finds the first
    /// member of that name, runs its predicate afresh, and hands what it gave to that
    /// member's execution entry point, whose result is returned as it is. The union
    /// must have a member of that name.
    pub fn resolve_into_type<C, S, R, Sel, X>(
        &self,
        ctx: &C,
        value: &S,
        name: &str,
        selection: &Sel,
    ) -> (r: X)
        where P: Fn(&C, &S) -> Option<R>, E: Fn(&C, Option<R>, &Sel) -> X
        requires
            self.predicates_accept(ctx, value),
            forall|i: int, o: Option<R>|
                0 <= i < self.members@.len() ==> #[trigger] call_requires(
                    self.members@[i].execute,
                    (ctx, o, selection),
                ),
            exists|k: int| 0 <= k < self.members@.len() && (#[trigger] self.members@[k]).name@ == name@,
        ensures
            exists|k: int, o: Option<R>|
                self.first_named(name@, k) && call_ensures(self.members@[k].predicate, (ctx, value), o)
                    && call_ensures(self.members@[k].execute, (ctx, o, selection), r),
    {
        match self.member_index(name) {
            Some(k) => {
                let member = &self.members[k];
                let o = (member.predicate)(ctx, value);
                let r = (member.execute)(ctx, o, selection);
                assert(self.first_named(name@, k as int));
                r
            },
            None => {
                unreached()
            },
        }
    }
}

/// Predicates are tried in declaration order and the first that recognises a value
/// decides: when member `k` recognises the value and every member declared before it
/// does not, the value resolves to `k`, whatever the members declared after it would say.
pub proof fn lemma_first_declared_match_wins<P, E, C, S, R>(
    u: UnionType<P, E>,
    ctx: &C,
    value: &S,
    k: int,
    resolved: int,
)
    where P: Fn(&C, &S) -> Option<R>
    requires
        0 <= k < u.members@.len(),
        must_match(u.members@[k].predicate, ctx, value),
        forall|j: int| 0 <= j < k ==> must_miss(#[trigger] u.members@[j].predicate, ctx, value),
        u.resolves_to(ctx, value, resolved),
    ensures
        resolved == k,
{
    if resolved < k {
        assert(must_miss(u.members@[resolved].predicate, ctx, value));
    } else if resolved > k {
        assert(may_miss(u.members@[k].predicate, ctx, value));
    }
}

/// A value that no member's predicate recognises resolves to no member at all: no
/// name can be given for it.
pub proof fn lemma_unrecognised_value_has_no_member<P, E, C, S, R>(
    u: UnionType<P, E>,
    ctx: &C,
    value: &S,
)
    where P: Fn(&C, &S) -> Option<R>
    requires
        forall|j: int|
            0 <= j < u.members@.len() ==> must_miss(#[trigger] u.members@[j].predicate, ctx, value),
    ensures
        forall|k: int| !u.resolves_to(ctx, value, k),
{
    assert forall|k: int| !u.resolves_to(ctx, value, k) by {
        if 0 <= k < u.members@.len() {
            assert(must_miss(u.members@[k].predicate, ctx, value));
        }
    }
}

impl<P, E> UnionType<P, E> {
    /// Builds the union's descriptor, asking `registry` for a handle on each member
    /// type in declaration order. Types registered before keep their handles; a
    /// member not yet registered is added on first mention.
    pub fn meta(&self, registry: &mut TypeRegistry) -> (m: UnionMeta)
        requires
            old(registry).wf(),
        ensures
            final(registry).wf(),
            old(registry)@.len() <= final(registry)@.len(),
            final(registry)@.subrange(0, old(registry)@.len() as int) == old(registry)@,
            m.name@ == self.name@,
            m.description == self.description,
            m.members@.len() == self.members@.len(),
            forall|i: int|
                0 <= i < self.members@.len() ==> {
                    let h = #[trigger] m.members@[i];
                    &&& h.index < final(registry)@.len()
                    &&& final(registry)@[h.index as int] == self.members@[i].name@
                },
    {
        let mut members: Vec<TypeHandle> = Vec::new();
        let mut i: usize = 0;
        while i < self.members.len()
            invariant
                registry.wf(),
                old(registry)@.len() <= registry@.len(),
                registry@.subrange(0, old(registry)@.len() as int) == old(registry)@,
                i <= self.members@.len(),
                members@.len() == i,
                forall|j: int|
                    0 <= j < i ==> (#[trigger] members@[j]).index < registry@.len() && registry@[members@[j].index as int]
                        == self.members@[j].name@,
            decreases self.members@.len() - i,
        {
            let ghost before = registry@;
            let h = registry.get_type(self.members[i].name.as_str());
            assert(registry@.subrange(0, before.len() as int) == before);
            assert(registry@.subrange(0, old(registry)@.len() as int) =~= before.subrange(
                0,
                old(registry)@.len() as int,
            ));
            members.push(h);
            i = i + 1;
        }
        let description = match &self.description {
            Some(d) => Some(d.clone()),
            None => None,
        };
        UnionMeta { name: self.name.clone(), description, members }
    }
}

} // verus!
