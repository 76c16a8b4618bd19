//! The names of elements. A value that is a field of a constructed type is
//! written as an element named after the field; any other value is named
//! after itself. The field-tag stack keeps, for each open scope, the names
//! that are still to be given out.

use crate::types::{field_names, name_view, Constructed, Field};
use vstd::prelude::*;

verus! {

/// What an open scope has left to name the values written in it.
pub enum Scope {
    /// The scope of a constructed type: the names of its fields that were
    /// not written yet, in declaration order.
    Fields(Seq<Seq<char>>),
    /// A scope whose values name themselves: the items of a collection, the
    /// alternative of a choice.
    Items,
}

/// The name for a value that no field names: the one it is given, or else
/// the one of its type.
pub open spec fn fallback_name(identifier: Option<Seq<char>>, own_name: Seq<char>) -> Option<
    Seq<char>,
> {
    match identifier {
        Some(name) => Some(name),
        None => Some(own_name),
    }
}

/// The name of the element for the next value, and the scopes once it was
/// given out. In the scope of a constructed type it is the name of the
/// next field, and there is none when all fields were written; anywhere
/// else it is `fallback`.
pub open spec fn next_name(scopes: Seq<Scope>, fallback: Option<Seq<char>>) -> Option<
    (Seq<char>, Seq<Scope>),
> {
    if scopes.len() > 0 && scopes.last() is Fields {
        let names = scopes.last()->Fields_0;
        if names.len() > 0 {
            Some((names[0], scopes.drop_last().push(Scope::Fields(names.skip(1)))))
        } else {
            None
        }
    } else {
        match fallback {
            Some(name) => Some((name, scopes)),
            None => None,
        }
    }
}

/// The name that the next value is given; the empty name where it is given
/// none.
pub open spec fn given_name(scopes: Seq<Scope>, fallback: Option<Seq<char>>) -> Seq<char> {
    match next_name(scopes, fallback) {
        Some((name, _)) => name,
        None => Seq::empty(),
    }
}

/// The scopes once an absent field was passed over: its name is given out
/// and dropped. Where no field is left, or no field is expected, nothing
/// changes.
pub open spec fn skip_name(scopes: Seq<Scope>) -> Seq<Scope> {
    match next_name(scopes, None) {
        Some((_, rest)) => rest,
        None => scopes,
    }
}

/// Giving out a name, and passing over one, change the innermost scope only:
/// as many scopes are open after as before, and those around the innermost
/// are as they were. So when a scope is left, what was open when it was
/// entered is open again, however many of its names were given out.
pub proof fn lemma_names_keep_outer_scopes(scopes: Seq<Scope>, fallback: Option<Seq<char>>)
    ensures
        next_name(scopes, fallback) matches Some((_, rest)) ==> rest.len() == scopes.len() && (
        scopes.len() > 0 ==> rest.drop_last() == scopes.drop_last()),
        skip_name(scopes).len() == scopes.len(),
        scopes.len() > 0 ==> skip_name(scopes).drop_last() == scopes.drop_last(),
{
    if scopes.len() > 0 && scopes.last() is Fields && scopes.last()->Fields_0.len() > 0 {
        let names = scopes.last()->Fields_0;
        let rest = scopes.drop_last().push(Scope::Fields(names.skip(1)));
        assert(rest.drop_last() =~= scopes.drop_last());
    }
}

/// The names of the fields of a scope are given out in declaration order,
/// once each: after `given` of them the next is the one at that place, and
/// after all of them none is left.
pub proof fn lemma_stack_discipline(
    scopes: Seq<Scope>,
    names: Seq<Seq<char>>,
    given: int,
    fallback: Option<Seq<char>>,
)
    requires
        0 <= given <= names.len(),
    ensures
        given < names.len() ==> next_name(scopes.push(Scope::Fields(names.skip(given))), fallback)
            == Some((names[given], scopes.push(Scope::Fields(names.skip(given + 1))))),
        given == names.len() ==> names.skip(given).len() == 0 && next_name(
            scopes.push(Scope::Fields(names.skip(given))),
            fallback,
        ) is None,
{
    let inner = scopes.push(Scope::Fields(names.skip(given)));
    assert(inner.drop_last() =~= scopes);
    if given < names.len() {
        assert(names.skip(given).skip(1) =~= names.skip(given + 1));
    }
}

/// Whether the next value is a field of a constructed type.
pub open spec fn in_fields(scopes: Seq<Scope>) -> bool {
    scopes.len() > 0 && scopes.last() is Fields
}

/// One entry of the field-tag stack: the names of one open scope.
enum Frame {
    /// The field names of a constructed type, and how many were given out.
    Fields { names: Vec<&'static str>, next: usize },
    /// A scope whose values name themselves.
    Items,
}

/// The names that a frame has left.
spec fn pending(names: Seq<&'static str>, next: int) -> Seq<Seq<char>> {
    if 0 <= next <= names.len() {
        Seq::new((names.len() - next) as nat, |i: int| names[next + i]@)
    } else {
        Seq::empty()
    }
}

impl Frame {
    spec fn scope(self) -> Scope {
        match self {
            Frame::Fields { names, next } => Scope::Fields(pending(names@, next as int)),
            Frame::Items => Scope::Items,
        }
    }
}

spec fn scopes_of(frames: Seq<Frame>) -> Seq<Scope> {
    Seq::new(frames.len(), |i: int| frames[i].scope())
}


/// The names of a field table as the stack keeps them.
pub open spec fn names_view(names: Seq<&'static str>) -> Seq<Seq<char>> {
    Seq::new(names.len(), |i: int| names[i]@)
}

/// The field-tag stack: for each open scope, the innermost last, the names
/// that it has left.
pub struct FieldTagStack {
    frames: Vec<Frame>,
}

impl View for FieldTagStack {
    type V = Seq<Scope>;

    closed spec fn view(&self) -> Seq<Scope> {
        scopes_of(self.frames@)
    }
}

impl FieldTagStack {
    /// The stack with no scope open.
    pub fn new() -> (stack: Self)
        ensures
            stack@ == Seq::<Scope>::empty(),
    {
        let stack = FieldTagStack { frames: Vec::new() };
        assert(stack@ =~= Seq::<Scope>::empty());
        stack
    }

    /// Gives out the name of the element for the next value; `None` where
    /// there is none, and then nothing changes.
    pub fn take_name(&mut self, fallback: Option<&'static str>) -> (r: Option<&'static str>)
        ensures
            match next_name(old(self)@, name_view(fallback)) {
                None => r is None && final(self)@ == old(self)@,
                Some((name, scopes)) => r is Some && r->0@ == name && final(self)@ == scopes,
            },
    {
        let ghost before = self.frames@;
        match self.frames.pop() {
            Some(Frame::Fields { names, next }) => {
                if next < names.len() {
                    let name = names[next];
                    let ghost left = pending(names@, next as int);
                    self.frames.push(Frame::Fields { names, next: next + 1 });
                    proof {
                        assert(scopes_of(before).last() == Scope::Fields(left));
                        assert(pending(names@, next + 1) =~= left.skip(1));
                        assert(scopes_of(self.frames@) =~= scopes_of(before).drop_last().push(
                            Scope::Fields(left.skip(1)),
                        ));
                    }
                    Some(name)
                } else {
                    self.frames.push(Frame::Fields { names, next });
                    proof {
                        assert(self.frames@ =~= before);
                        assert(scopes_of(before).last() == Scope::Fields(
                            pending(names@, next as int),
                        ));
                    }
                    None
                }
            },
            other => {
                match other {
                    Some(frame) => {
                        self.frames.push(frame);
                        proof {
                            assert(self.frames@ =~= before);
                            assert(scopes_of(before).last() == Scope::Items);
                        }
                    },
                    None => {
                        proof {
                            assert(self.frames@ =~= before);
                        }
                    },
                }
                fallback
            },
        }
    }

    /// The name of the next field, where the next value is a field and one is
    /// left; nothing changes.
    pub fn peek_name(&self) -> (r: Option<&'static str>)
        ensures
            match next_name(self@, None) {
                None => r is None,
                Some((name, _)) => r is Some && r->0@ == name,
            },
    {
        let n = self.frames.len();
        if n == 0 {
            None
        } else {
            match &self.frames[n - 1] {
                Frame::Fields { names, next } => {
                    if *next < names.len() {
                        Some(names[*next])
                    } else {
                        None
                    }
                },
                Frame::Items => None,
            }
        }
    }

    /// Passes over the name of an absent field.
    pub fn drop_name(&mut self)
        ensures
            final(self)@ == skip_name(old(self)@),
    {
        let _ = self.take_name(None);
    }

    /// Opens the scope of a constructed type with the field names `names`.
    pub fn open_fields(&mut self, names: Vec<&'static str>)
        ensures
            final(self)@ == old(self)@.push(Scope::Fields(names_view(names@))),
    {
        self.frames.push(Frame::Fields { names, next: 0 });
        assert(pending(names@, 0) =~= names_view(names@));
        assert(self@ =~= old(self)@.push(Scope::Fields(names_view(names@))));
    }

    /// Opens a scope whose values name themselves.
    pub fn open_items(&mut self)
        ensures
            final(self)@ == old(self)@.push(Scope::Items),
    {
        self.frames.push(Frame::Items);
        assert(self@ =~= old(self)@.push(Scope::Items));
    }

    /// Closes the innermost scope, if there is one.
    pub fn close_scope(&mut self)
        ensures
            final(self)@ == if old(self)@.len() > 0 {
                old(self)@.drop_last()
            } else {
                old(self)@
            },
    {
        let _ = self.frames.pop();
        assert(self@ =~= if old(self)@.len() > 0 {
            old(self)@.drop_last()
        } else {
            old(self)@
        });
    }

    /// Tells whether the next value is a field of a constructed type.
    pub fn is_in_fields(&self) -> (b: bool)
        ensures
            b == in_fields(self@),
    {
        let n = self.frames.len();
        if n == 0 {
            false
        } else {
            match &self.frames[n - 1] {
                Frame::Fields { .. } => true,
                Frame::Items => false,
            }
        }
    }
}

/// The name for a value that no field names.
pub fn or_own_name(identifier: Option<&'static str>, own_name: &'static str) -> (name: Option<
    &'static str,
>)
    ensures
        name_view(name) == fallback_name(name_view(identifier), own_name@),
{
    match identifier {
        Some(name) => Some(name),
        None => Some(own_name),
    }
}

/// The names of the fields of `C`, in declaration order.
pub fn names_of<C: Constructed>() -> (names: Vec<&'static str>)
    ensures
        exists|fields: Vec<Field>| #[trigger]
            call_ensures(C::fields, (), fields) && names_view(names@) == field_names(fields@),
{
    let fields = C::fields();
    let mut names: Vec<&'static str> = Vec::new();
    let mut i: usize = 0;
    while i < fields.len()
        invariant
            i <= fields.len(),
            names@.len() == i,
            forall|j: int| 0 <= j < i ==> names@[j]@ == fields@[j].name@,
        decreases fields.len() - i,
    {
        names.push(fields[i].name);
        i = i + 1;
    }
    assert(names_view(names@) =~= field_names(fields@));
    names
}

} // verus!
