//! A registry of the types of a schema, handing out a stable handle for each type
//! on its first mention.
use vstd::prelude::*;

verus! {

/// A stable handle on a registered type.
#[derive(Clone, Copy, Debug, PartialEq, Eq, Hash, Structural)]
pub struct TypeHandle {
    pub index: usize,
}

/// The registered type names, each once, in the order they were first mentioned.
pub struct TypeRegistry {
    names: Vec<String>,
}

impl View for TypeRegistry {
    type V = Seq<Seq<char>>;

    closed spec fn view(&self) -> Seq<Seq<char>> {
        self.names@.map_values(|s: String| s@)
    }
}

impl TypeRegistry {
    /// No type name is registered twice.
    pub open spec fn wf(&self) -> bool {
        forall|i: int, j: int| 0 <= i < j < self@.len() ==> self@[i] != self@[j]
    }

    /// An empty registry.
    pub fn new() -> (r: TypeRegistry)
        ensures
            r.wf(),
            r@ == Seq::<Seq<char>>::empty(),
    {
        let r = TypeRegistry { names: Vec::new() };
        assert(r@ =~= Seq::<Seq<char>>::empty());
        r
    }

    /// How many types are registered.
    pub fn len(&self) -> (r: usize)
        ensures
            r == self@.len(),
    {
        self.names.len()
    }

    /// The name of the type that `h` stands for.
    pub fn name_of(&self, h: TypeHandle) -> (r: &String)
        requires
            h.index < self@.len(),
        ensures
            r@ == self@[h.index as int],
    {
        &self.names[h.index]
    }

    /// The handle of the type named `name`, registering the name on its first
    /// mention. A name already registered keeps its handle and the registry is
    /// unchanged; a new name is added after all others.
    pub fn get_type(&mut self, name: &str) -> (h: TypeHandle)
        requires
            old(self).wf(),
        ensures
            final(self).wf(),
            h.index < final(self)@.len(),
            final(self)@[h.index as int] == name@,
            old(self)@.contains(name@) ==> final(self)@ == old(self)@,
            !old(self)@.contains(name@) ==> final(self)@ == old(self)@.push(name@),
    {
        let wanted = name.to_owned();
        let mut i: usize = 0;
        while i < self.names.len()
            invariant
                wanted@ == name@,
                self.wf(),
                self@ == old(self)@,
                i <= self@.len(),
                self@.len() == self.names@.len(),
                forall|j: int| 0 <= j < i ==> self@[j] != name@,
            decreases self@.len() - i,
        {
            if self.names[i] == wanted {
                assert(self@[i as int] == name@);
                assert(old(self)@.contains(name@));
                return TypeHandle { index: i };
            }
            i = i + 1;
        }
        let ghost before = self@;
        self.names.push(wanted);
        assert(self@ =~= before.push(name@));
        TypeHandle { index: i }
    }
}

} // verus!
