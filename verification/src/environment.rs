//! Scopes: which names are bound, to what, and which scope encloses
//! which.

use vstd::prelude::*;
use vstd::string::*;
use crate::error::{RuntimeError, RuntimeErrorKind};
use crate::object::{Builtin, Object};
use crate::token::Token;

verus! {

/// A name and the value bound to it.
#[derive(Debug)]
pub struct Binding<'a> {
    pub name: String,
    pub value: Object<'a>,
}

/// One scope as a mathematical value: its bindings in the order in which
/// they were defined, and the scope that encloses it.
pub ghost struct Scope<'a> {
    pub bindings: Seq<Binding<'a>>,
    pub enclosing: Option<usize>,
}

#[derive(Debug)]
struct Frame<'a> {
    bindings: Vec<Binding<'a>>,
    enclosing: Option<usize>,
}

/// All the scopes of one interpreter. A scope is named by its index; scope
/// 0 is the global scope, and no scope is ever removed, so that a function
/// value can name the scope it closes over for as long as it lives.
#[derive(Debug)]
pub struct Environment<'a> {
    frames: Vec<Frame<'a>>,
}

/// The index of the first binding of `name` at or after `from`.
pub open spec fn slot_from(bindings: Seq<Binding>, name: Seq<char>, from: int) -> Option<int>
    decreases bindings.len() - from,
{
    if from < 0 || from >= bindings.len() {
        None
    } else if bindings[from].name@ == name {
        Some(from)
    } else {
        slot_from(bindings, name, from + 1)
    }
}

/// The index of the binding of `name` in one scope.
pub open spec fn slot_of(bindings: Seq<Binding>, name: Seq<char>) -> Option<int> {
    slot_from(bindings, name, 0)
}

/// The names bound in one scope.
pub open spec fn names_of(bindings: Seq<Binding>) -> Set<Seq<char>> {
    Set::new(|name: Seq<char>| slot_of(bindings, name) is Some)
}

/// Where `name` is found from `scope` outward: the first scope on the
/// chain of enclosing scopes that binds it, and the binding's index there.
pub open spec fn resolve(scopes: Seq<Scope>, scope: int, name: Seq<char>) -> Option<(int, int)>
    decreases scope,
{
    if scope < 0 || scope >= scopes.len() {
        None
    } else {
        match slot_of(scopes[scope].bindings, name) {
            Some(slot) => Some((scope, slot)),
            None => match scopes[scope].enclosing {
                Some(outer) => if outer < scope {
                    resolve(scopes, outer as int, name)
                } else {
                    None
                },
                None => None,
            },
        }
    }
}

/// The scopes with one binding given a new value.
pub open spec fn rebound<'a>(scopes: Seq<Scope<'a>>, scope: int, slot: int, value: Object<'a>) -> Seq<
    Scope<'a>,
> {
    scopes.update(
        scope,
        Scope {
            bindings: scopes[scope].bindings.update(
                slot,
                Binding { name: scopes[scope].bindings[slot].name, value },
            ),
            enclosing: scopes[scope].enclosing,
        },
    )
}

/// The scopes with one binding added at the end of a scope.
pub open spec fn extended<'a>(scopes: Seq<Scope<'a>>, scope: int, name: String, value: Object<'a>) -> Seq<
    Scope<'a>,
> {
    scopes.update(
        scope,
        Scope {
            bindings: scopes[scope].bindings.push(Binding { name, value }),
            enclosing: scopes[scope].enclosing,
        },
    )
}

/// What holds of the scopes of every environment: there is a global scope,
/// it is scope 0, and every other scope is enclosed by an earlier one.
pub open spec fn well_formed(scopes: Seq<Scope>) -> bool {
    &&& scopes.len() >= 1
    &&& scopes[0].enclosing is None
    &&& forall|i: int|
        1 <= i < scopes.len() ==> (#[trigger] scopes[i]).enclosing is Some && scopes[i].enclosing->0
            < i
}

/// What [`Environment::define`] makes of the scopes: in the global scope a
/// bound name is bound anew; in any other scope a bound name is an error.
pub open spec fn defined<'a>(scopes: Seq<Scope<'a>>, scope: int, name: Token, value: Object<'a>) -> Result<
    Seq<Scope<'a>>,
    RuntimeError,
> {
    match slot_of(scopes[scope].bindings, name.lexeme@) {
        Some(slot) => if scope == 0 {
            Ok(rebound(scopes, 0, slot, value))
        } else {
            Err(RuntimeError { line: name.line, kind: RuntimeErrorKind::AlreadyDefined(name.lexeme) })
        },
        None => Ok(extended(scopes, scope, name.lexeme, value)),
    }
}

/// What [`Environment::assign`] makes of the scopes: the nearest binding of
/// the name gets the value; a name that no scope on the chain binds is an
/// error.
pub open spec fn written<'a>(scopes: Seq<Scope<'a>>, scope: int, name: Token, value: Object<'a>) -> Result<
    Seq<Scope<'a>>,
    RuntimeError,
> {
    match resolve(scopes, scope, name.lexeme@) {
        Some((at, slot)) => Ok(rebound(scopes, at, slot, value)),
        None => Err(
            RuntimeError { line: name.line, kind: RuntimeErrorKind::UndefinedVariable(name.lexeme) },
        ),
    }
}

/// What [`Environment::get`] reads: the value of the nearest binding of the
/// name. A name that no scope on the chain binds is an error, and so is a
/// binding that was never given a value.
pub open spec fn read<'a>(scopes: Seq<Scope<'a>>, scope: int, name: Token) -> Result<
    Object<'a>,
    RuntimeError,
> {
    match resolve(scopes, scope, name.lexeme@) {
        Some((at, slot)) => if scopes[at].bindings[slot].value is Unitialized {
            Err(
                RuntimeError {
                    line: name.line,
                    kind: RuntimeErrorKind::UninitializedVariable(name.lexeme),
                },
            )
        } else {
            Ok(scopes[at].bindings[slot].value)
        },
        None => Err(
            RuntimeError { line: name.line, kind: RuntimeErrorKind::UndefinedVariable(name.lexeme) },
        ),
    }
}

impl<'a> View for Environment<'a> {
    type V = Seq<Scope<'a>>;

    closed spec fn view(&self) -> Seq<Scope<'a>> {
        Seq::new(
            self.frames@.len(),
            |i: int| Scope { bindings: self.frames@[i].bindings@, enclosing: self.frames@[i].enclosing },
        )
    }
}

fn find<'a>(bindings: &Vec<Binding<'a>>, name: &String) -> (r: Option<usize>)
    ensures
        match r {
            Some(slot) => slot_of(bindings@, name@) == Some(slot as int) && slot < bindings@.len(),
            None => slot_of(bindings@, name@) is None,
        },
{
    let mut i: usize = 0;
    while i < bindings.len()
        invariant
            i <= bindings@.len(),
            slot_of(bindings@, name@) == slot_from(bindings@, name@, i as int),
        decreases bindings@.len() - i,
    {
        if bindings[i].name == *name {
            return Some(i);
        }
        i = i + 1;
    }
    None
}

impl<'a> Environment<'a> {
    /// Whether the environment is one that [`Environment::new`] and the
    /// methods below can have made.
    pub open spec fn wf(&self) -> bool {
        well_formed(self@)
    }

    /// A new environment: the global scope with the builtins.
    pub fn new() -> (r: Self)
        ensures
            r.wf(),
            r@.len() == 1,
            r@[0].enclosing is None,
            r@[0].bindings.len() == 1,
            r@[0].bindings[0].name@ == Builtin::Clock.name_text(),
            r@[0].bindings[0].value == Object::<'a>::Builtin(Builtin::Clock),
    {
        let mut bindings: Vec<Binding<'a>> = Vec::new();
        bindings.push(
            Binding {
                name: String::from_str(Builtin::Clock.name()),
                value: Object::Builtin(Builtin::Clock),
            },
        );
        let mut frames: Vec<Frame<'a>> = Vec::new();
        frames.push(Frame { bindings, enclosing: None });
        Environment { frames }
    }

    /// The number of scopes.
    pub fn len(&self) -> (r: usize)
        ensures
            r == self@.len(),
    {
        self.frames.len()
    }

    /// Adds an empty scope enclosed by `enclosing` and returns its index.
    pub fn new_enclosing(&mut self, enclosing: usize) -> (r: usize)
        requires
            old(self).wf(),
            enclosing < old(self)@.len(),
        ensures
            final(self).wf(),
            r == old(self)@.len(),
            final(self)@ == old(self)@.push(
                Scope { bindings: Seq::empty(), enclosing: Some(enclosing) },
            ),
    {
        let r = self.frames.len();
        self.frames.push(Frame { bindings: Vec::new(), enclosing: Some(enclosing) });
        assert(self@ =~= old(self)@.push(
            Scope { bindings: Seq::empty(), enclosing: Some(enclosing) },
        ));
        r
    }

    /// Binds the lexeme of `name` in `scope`. In the global scope a name
    /// that is already bound is bound anew; in any other scope that is an
    /// error, and nothing changes.
    pub fn define(&mut self, scope: usize, name: &Token, value: Object<'a>) -> (r: Result<
        (),
        RuntimeError,
    >)
        requires
            old(self).wf(),
            scope < old(self)@.len(),
        ensures
            final(self).wf(),
            match defined(old(self)@, scope as int, *name, value) {
                Ok(scopes) => r is Ok && final(self)@ == scopes,
                Err(error) => r == Err::<(), RuntimeError>(error) && final(self)@ == old(self)@,
            },
    {
        match find(&self.frames[scope].bindings, &name.lexeme) {
            Some(slot) => {
                if scope == 0 {
                    self.frames[scope].bindings[slot].value = value;
                    assert(self@ =~= rebound(old(self)@, 0, slot as int, value));
                    Ok(())
                } else {
                    assert(self@ =~= old(self)@);
                    Err(
                        RuntimeError {
                            line: name.line,
                            kind: RuntimeErrorKind::AlreadyDefined(name.lexeme.clone()),
                        },
                    )
                }
            },
            None => {
                self.frames[scope].bindings.push(Binding { name: name.lexeme.clone(), value });
                assert(self@ =~= extended(old(self)@, scope as int, name.lexeme, value));
                Ok(())
            },
        }
    }

    fn locate(&self, scope: usize, name: &String) -> (r: Option<(usize, usize)>)
        ensures
            match r {
                Some((at, slot)) => resolve(self@, scope as int, name@) == Some(
                    (at as int, slot as int),
                ) && at < self@.len() && slot < self@[at as int].bindings.len(),
                None => resolve(self@, scope as int, name@) is None,
            },
    {
        let mut at = scope;
        loop
            invariant
                resolve(self@, scope as int, name@) == resolve(self@, at as int, name@),
            decreases at,
        {
            if at >= self.frames.len() {
                return None;
            }
            match find(&self.frames[at].bindings, name) {
                Some(slot) => {
                    return Some((at, slot));
                },
                None => {},
            }
            match self.frames[at].enclosing {
                Some(outer) => {
                    if outer < at {
                        at = outer;
                    } else {
                        return None;
                    }
                },
                None => {
                    return None;
                },
            }
        }
    }

    /// Gives the nearest binding of `name`, from `scope` outward, a new
    /// value. No name is ever added or removed.
    pub fn assign(&mut self, scope: usize, name: &Token, value: Object<'a>) -> (r: Result<
        (),
        RuntimeError,
    >)
        requires
            old(self).wf(),
        ensures
            final(self).wf(),
            match written(old(self)@, scope as int, *name, value) {
                Ok(scopes) => r is Ok && final(self)@ == scopes,
                Err(error) => r == Err::<(), RuntimeError>(error) && final(self)@ == old(self)@,
            },
            final(self)@.len() == old(self)@.len(),
            forall|i: int|
                0 <= i < old(self)@.len() ==> names_of(#[trigger] final(self)@[i].bindings)
                    == names_of(old(self)@[i].bindings),
    {
        match self.locate(scope, &name.lexeme) {
            Some((at, slot)) => {
                self.frames[at].bindings[slot].value = value;
                assert(self@ =~= rebound(old(self)@, at as int, slot as int, value));
                proof {
                    lemma_rebound_keeps_names(old(self)@, at as int, slot as int, value);
                }
                Ok(())
            },
            None => {
                assert(self@ =~= old(self)@);
                Err(
                    RuntimeError {
                        line: name.line,
                        kind: RuntimeErrorKind::UndefinedVariable(name.lexeme.clone()),
                    },
                )
            },
        }
    }

    /// Reads the nearest binding of `name`, from `scope` outward.
    pub fn get(&self, scope: usize, name: &Token) -> (r: Result<Object<'a>, RuntimeError>)
        ensures
            r == read(self@, scope as int, *name),
            r is Ok ==> resolve(self@, scope as int, name.lexeme@) is Some,
    {
        match self.locate(scope, &name.lexeme) {
            Some((at, slot)) => {
                let value = &self.frames[at].bindings[slot].value;
                match value {
                    Object::Unitialized => Err(
                        RuntimeError {
                            line: name.line,
                            kind: RuntimeErrorKind::UninitializedVariable(name.lexeme.clone()),
                        },
                    ),
                    _ => Ok(value.clone()),
                }
            },
            None => Err(
                RuntimeError {
                    line: name.line,
                    kind: RuntimeErrorKind::UndefinedVariable(name.lexeme.clone()),
                },
            ),
        }
    }
}

/// Searching from `from` finds the same binding before and after one
/// binding is given a new value.
pub proof fn lemma_rebound_slots<'a>(
    bindings: Seq<Binding<'a>>,
    slot: int,
    value: Object<'a>,
    name: Seq<char>,
    from: int,
)
    requires
        0 <= slot < bindings.len(),
    ensures
        slot_from(
            bindings.update(slot, Binding { name: bindings[slot].name, value }),
            name,
            from,
        ) == slot_from(bindings, name, from),
    decreases bindings.len() - from,
{
    if 0 <= from < bindings.len() {
        lemma_rebound_slots(bindings, slot, value, name, from + 1);
    }
}

/// Giving a binding a new value changes the set of names of no scope.
pub proof fn lemma_rebound_keeps_names<'a>(
    scopes: Seq<Scope<'a>>,
    scope: int,
    slot: int,
    value: Object<'a>,
)
    requires
        0 <= scope < scopes.len(),
        0 <= slot < scopes[scope].bindings.len(),
    ensures
        forall|i: int|
            0 <= i < scopes.len() ==> names_of(#[trigger] rebound(scopes, scope, slot, value)[i].bindings)
                == names_of(scopes[i].bindings),
{
    let after = rebound(scopes, scope, slot, value);
    assert forall|i: int| 0 <= i < scopes.len() implies names_of(#[trigger] after[i].bindings)
        == names_of(scopes[i].bindings) by {
        if i == scope {
            assert forall|name: Seq<char>|
                names_of(after[i].bindings).contains(name) == names_of(
                    scopes[i].bindings,
                ).contains(name) by {
                lemma_rebound_slots(scopes[scope].bindings, slot, value, name, 0);
            }
            assert(names_of(after[i].bindings) =~= names_of(scopes[i].bindings));
        }
    }
}

/// Defining a name touches the scope it is defined in and no other, and
/// adds or removes no scope.
pub proof fn lemma_defined_touches_one_scope<'a>(
    scopes: Seq<Scope<'a>>,
    scope: int,
    name: Token,
    value: Object<'a>,
)
    requires
        0 <= scope < scopes.len(),
        defined(scopes, scope, name, value) is Ok,
    ensures
        defined(scopes, scope, name, value)->Ok_0.len() == scopes.len(),
        defined(scopes, scope, name, value)->Ok_0[scope].enclosing == scopes[scope].enclosing,
        forall|i: int|
            0 <= i < scopes.len() && i != scope ==> defined(scopes, scope, name, value)->Ok_0[i]
                == scopes[i],
{
}

/// What a name resolves to from a scope depends on that scope and the
/// scopes before it alone: scopes made later, and what is bound in them,
/// are not visible from it. So a variable introduced inside a block is
/// not visible after the block.
pub proof fn lemma_resolve_ignores_later_scopes<'a>(
    before: Seq<Scope<'a>>,
    after: Seq<Scope<'a>>,
    scope: int,
    name: Seq<char>,
)
    requires
        0 <= scope < before.len() <= after.len(),
        forall|i: int| 0 <= i <= scope ==> after[i] == before[i],
    ensures
        resolve(after, scope, name) == resolve(before, scope, name),
    decreases scope,
{
    if slot_of(before[scope].bindings, name) is None {
        match before[scope].enclosing {
            Some(outer) => {
                if outer < scope {
                    lemma_resolve_ignores_later_scopes(before, after, outer as int, name);
                }
            },
            None => {},
        }
    }
}

/// A name resolves to a scope on the chain of enclosing scopes, and to a
/// binding of that name there.
pub proof fn lemma_resolve_finds_the_name<'a>(scopes: Seq<Scope<'a>>, scope: int, name: Seq<char>)
    requires
        resolve(scopes, scope, name) is Some,
    ensures
        ({
            let (at, slot) = resolve(scopes, scope, name)->0;
            &&& 0 <= at <= scope
            &&& at < scopes.len()
            &&& 0 <= slot < scopes[at].bindings.len()
            &&& scopes[at].bindings[slot].name@ == name
        }),
    decreases scope,
{
    if 0 <= scope < scopes.len() {
        match slot_of(scopes[scope].bindings, name) {
            Some(slot) => {
                lemma_slot_names(scopes[scope].bindings, name, 0);
            },
            None => match scopes[scope].enclosing {
                Some(outer) => {
                    if outer < scope {
                        lemma_resolve_finds_the_name(scopes, outer as int, name);
                    }
                },
                None => {},
            },
        }
    }
}

/// The binding that a search finds is one of the name, at or after where
/// the search started.
pub proof fn lemma_slot_names(bindings: Seq<Binding>, name: Seq<char>, from: int)
    requires
        slot_from(bindings, name, from) is Some,
    ensures
        from <= slot_from(bindings, name, from)->0 < bindings.len(),
        bindings[slot_from(bindings, name, from)->0].name@ == name,
    decreases bindings.len() - from,
{
    if 0 <= from < bindings.len() && bindings[from].name@ != name {
        lemma_slot_names(bindings, name, from + 1);
    }
}

/// Whether the scopes `after` keep what the scopes `before` hold: every
/// scope, with the scope that encloses it and with every name bound in
/// it. Values may differ.
pub open spec fn keeps(before: Seq<Scope>, after: Seq<Scope>) -> bool {
    &&& before.len() <= after.len()
    &&& forall|i: int|
        0 <= i < before.len() ==> (#[trigger] after[i]).enclosing == before[i].enclosing
            && names_of(before[i].bindings).subset_of(names_of(after[i].bindings))
}

/// A binding that is found is still found after another binding was added
/// at the end.
pub proof fn lemma_extended_slots<'a>(
    bindings: Seq<Binding<'a>>,
    added: Binding<'a>,
    name: Seq<char>,
    from: int,
)
    requires
        slot_from(bindings, name, from) is Some,
    ensures
        slot_from(bindings.push(added), name, from) == slot_from(bindings, name, from),
    decreases bindings.len() - from,
{
    if 0 <= from < bindings.len() && bindings[from].name@ != name {
        lemma_extended_slots(bindings, added, name, from + 1);
    }
}

/// Defining a name keeps every scope and every name, and the scopes well
/// formed.
pub proof fn lemma_defined_keeps<'a>(
    scopes: Seq<Scope<'a>>,
    scope: int,
    name: Token,
    value: Object<'a>,
)
    requires
        well_formed(scopes),
        0 <= scope < scopes.len(),
        defined(scopes, scope, name, value) is Ok,
    ensures
        well_formed(defined(scopes, scope, name, value)->Ok_0),
        keeps(scopes, defined(scopes, scope, name, value)->Ok_0),
{
    let after = defined(scopes, scope, name, value)->Ok_0;
    match slot_of(scopes[scope].bindings, name.lexeme@) {
        Some(slot) => {
            lemma_slot_names(scopes[scope].bindings, name.lexeme@, 0);
            lemma_rebound_keeps_names(scopes, 0, slot, value);
        },
        None => {
            let added = Binding { name: name.lexeme, value };
            assert forall|i: int| 0 <= i < scopes.len() implies names_of(
                scopes[i].bindings,
            ).subset_of(names_of((#[trigger] after[i]).bindings)) by {
                if i == scope {
                    assert forall|other: Seq<char>|
                        names_of(scopes[i].bindings).contains(other) implies names_of(
                        after[i].bindings,
                    ).contains(other) by {
                        lemma_extended_slots(scopes[i].bindings, added, other, 0);
                    }
                }
            }
        },
    }
}

/// Assigning to a name keeps every scope and every name, and the scopes
/// well formed.
pub proof fn lemma_written_keeps<'a>(
    scopes: Seq<Scope<'a>>,
    scope: int,
    name: Token,
    value: Object<'a>,
)
    requires
        well_formed(scopes),
        written(scopes, scope, name, value) is Ok,
    ensures
        well_formed(written(scopes, scope, name, value)->Ok_0),
        keeps(scopes, written(scopes, scope, name, value)->Ok_0),
{
    lemma_resolve_finds_the_name(scopes, scope, name.lexeme@);
    let (at, slot) = resolve(scopes, scope, name.lexeme@)->0;
    lemma_rebound_keeps_names(scopes, at, slot, value);
}

} // verus!
