use vstd::prelude::*;
use vstd::string::StringExecFns;
use crate::error_reporter::LoxError;
use crate::literal::Literal;
use crate::token::Token;

verus! {

/// One scope: a parent and its own variables, no name twice.
pub struct Scope {
    enclosing: Option<usize>,
    names: Vec<String>,
    values: Vec<Literal>,
    captured: bool,
}

/// The scopes of a running program. A scope is known by its handle, the
/// number under which it was made; scope 0 is the global one. A scope is made
/// after its parent and keeps it, so every chain of parents ends. The newest
/// scope can be discarded again; a scope that a function has captured is
/// marked, so that it is kept.
pub struct Environment {
    scopes: Vec<Scope>,
}

/// Whether `error` says that the variable that `name` names is not defined.
pub open spec fn undefined(error: LoxError, name: Token) -> bool {
    error matches LoxError::RuntimeError { token, message } && token == name && message@
        == "Undefined variable '"@ + name.lexeme@ + "'."@
}

impl Scope {
    spec fn wf(&self) -> bool {
        &&& self.names@.len() == self.values@.len()
        &&& forall|i: int, j: int|
            0 <= i < j < self.names@.len() ==> (#[trigger] self.names@[i])@ != (
            #[trigger] self.names@[j])@
    }

    /// The index under which the scope holds `name`.
    spec fn slot(&self, name: Seq<char>) -> int {
        choose|i: int| 0 <= i < self.names@.len() && (#[trigger] self.names@[i])@ == name
    }

    spec fn has(&self, name: Seq<char>) -> bool {
        exists|i: int| 0 <= i < self.names@.len() && (#[trigger] self.names@[i])@ == name
    }

    spec fn bindings(&self) -> Map<Seq<char>, Literal> {
        Map::new(|name: Seq<char>| self.has(name), |name: Seq<char>| self.values@[self.slot(name)])
    }

    fn find(&self, name: &String) -> (found: Option<usize>)
        requires
            self.wf(),
        ensures
            match found {
                Some(index) => index < self.names@.len() && self.names@[index as int]@ == name@
                    && self.has(name@) && self.slot(name@) == index,
                None => !self.has(name@),
            },
    {
        let mut index: usize = 0;
        while index < self.names.len()
            invariant
                self.wf(),
                index <= self.names@.len(),
                forall|i: int| 0 <= i < index ==> (#[trigger] self.names@[i])@ != name@,
            decreases self.names@.len() - index,
        {
            if self.names[index] == *name {
                proof {
                    assert(self.names@[index as int]@ == name@);
                    assert(self.has(name@));
                    let chosen = self.slot(name@);
                    assert(self.names@[chosen]@ == name@);
                    if chosen < index {
                        assert(self.names@[chosen]@ != self.names@[index as int]@);
                    } else if chosen > index {
                        assert(self.names@[index as int]@ != self.names@[chosen]@);
                    }
                }
                return Some(index);
            }
            index += 1;
        }
        None
    }
}

impl Environment {
    /// The number of scopes; the handles are the numbers below it.
    pub closed spec fn count(&self) -> nat {
        self.scopes@.len()
    }

    /// The parent of a scope.
    pub closed spec fn enclosing(&self, scope: int) -> Option<int> {
        match self.scopes@[scope].enclosing {
            Some(outer) => Some(outer as int),
            None => None,
        }
    }

    /// The variables of a scope itself.
    pub closed spec fn bindings(&self, scope: int) -> Map<Seq<char>, Literal> {
        self.scopes@[scope].bindings()
    }

    /// Whether a function has captured the scope.
    pub closed spec fn captured(&self, scope: int) -> bool {
        self.scopes@[scope].captured
    }

    /// There is a global scope, and every scope was made after its parent.
    pub closed spec fn wf(&self) -> bool {
        &&& self.scopes@.len() > 0
        &&& forall|i: int|
            0 <= i < self.scopes@.len() ==> {
                &&& (#[trigger] self.scopes@[i]).wf()
                &&& self.scopes@[i].enclosing matches Some(outer) ==> outer < i
            }
    }

    /// The innermost scope, from `scope` outwards, that holds `name`.
    pub open spec fn resolve(&self, scope: int, name: Seq<char>) -> Option<int>
        decreases scope,
    {
        if scope < 0 || scope >= self.count() {
            None
        } else if self.bindings(scope).contains_key(name) {
            Some(scope)
        } else {
            match self.enclosing(scope) {
                Some(outer) => if 0 <= outer < scope {
                    self.resolve(outer, name)
                } else {
                    None
                },
                None => None,
            }
        }
    }

    /// The value that `name` has when it is read in `scope`.
    pub open spec fn lookup(&self, scope: int, name: Seq<char>) -> Option<Literal> {
        match self.resolve(scope, name) {
            Some(holder) => Some(self.bindings(holder)[name]),
            None => None,
        }
    }

    /// `self` is `before` but for one scope, which now holds `bindings` and
    /// is marked as captured or not as `captured` says.
    pub open spec fn changed(
        &self,
        before: Environment,
        scope: int,
        bindings: Map<Seq<char>, Literal>,
        captured: bool,
    ) -> bool {
        &&& self.wf()
        &&& self.count() == before.count()
        &&& forall|other: int|
            0 <= other < before.count() ==> #[trigger] self.enclosing(other) == before.enclosing(
                other,
            )
        &&& forall|other: int|
            0 <= other < before.count() && other != scope ==> #[trigger] self.bindings(other)
                == before.bindings(other)
        &&& forall|other: int|
            0 <= other < before.count() && other != scope ==> #[trigger] self.captured(other)
                == before.captured(other)
        &&& self.bindings(scope) == bindings
        &&& self.captured(scope) == captured
    }

    /// `self` is `before` but for the variables of `scope`, which are now
    /// `bindings`.
    pub open spec fn differs_in(&self, before: Environment, scope: int, bindings: Map<Seq<char>, Literal>) -> bool {
        self.changed(before, scope, bindings, before.captured(scope))
    }

    /// What leaving the scope `entered` makes of `before`: the scope is
    /// discarded where it is the newest and no function has captured it, and
    /// nothing changes otherwise.
    pub open spec fn leaves(&self, before: Environment, entered: int) -> bool {
        if entered + 1 == before.count() && !before.captured(entered) {
            self.drops(before)
        } else {
            *self == before
        }
    }

    /// `self` is `before` with the scope marked as captured.
    pub open spec fn marks(&self, before: Environment, scope: int) -> bool {
        &&& self.wf()
        &&& self.count() == before.count()
        &&& forall|other: int|
            0 <= other < before.count() ==> #[trigger] self.enclosing(other) == before.enclosing(
                other,
            )
        &&& forall|other: int|
            0 <= other < before.count() ==> #[trigger] self.bindings(other) == before.bindings(
                other,
            )
        &&& forall|other: int|
            0 <= other < before.count() && other != scope ==> #[trigger] self.captured(other)
                == before.captured(other)
        &&& self.captured(scope)
    }

    /// `self` is `before` without its newest scope.
    pub open spec fn drops(&self, before: Environment) -> bool {
        &&& self.wf()
        &&& self.count() + 1 == before.count()
        &&& forall|other: int|
            0 <= other < self.count() ==> #[trigger] self.enclosing(other) == before.enclosing(
                other,
            )
        &&& forall|other: int|
            0 <= other < self.count() ==> #[trigger] self.bindings(other) == before.bindings(
                other,
            )
        &&& forall|other: int|
            0 <= other < self.count() ==> #[trigger] self.captured(other) == before.captured(
                other,
            )
    }

    /// `self` is `before` with one more scope under `enclosing`, which holds
    /// `bindings`.
    pub open spec fn extends_with(
        &self,
        before: Environment,
        enclosing: int,
        bindings: Map<Seq<char>, Literal>,
    ) -> bool {
        &&& self.wf()
        &&& self.count() == before.count() + 1
        &&& forall|other: int|
            0 <= other < before.count() ==> #[trigger] self.enclosing(other) == before.enclosing(
                other,
            )
        &&& forall|other: int|
            0 <= other < before.count() ==> #[trigger] self.bindings(other) == before.bindings(
                other,
            )
        &&& forall|other: int|
            0 <= other < before.count() ==> #[trigger] self.captured(other) == before.captured(
                other,
            )
        &&& self.enclosing(before.count() as int) == Some(enclosing)
        &&& self.bindings(before.count() as int) == bindings
        &&& !self.captured(before.count() as int)
    }

    /// `self` is `before` with one more scope, empty, under `enclosing`.
    pub open spec fn extends(&self, before: Environment, enclosing: int) -> bool {
        self.extends_with(before, enclosing, Map::empty())
    }

    /// The scopes of a program that has not started: the global one, empty.
    pub fn new() -> (environment: Environment)
        ensures
            environment.wf(),
            environment.count() == 1,
            environment.enclosing(0) == None::<int>,
            environment.bindings(0) == Map::<Seq<char>, Literal>::empty(),
            !environment.captured(0),
    {
        let mut scopes: Vec<Scope> = Vec::new();
        let global = Scope {
            enclosing: None,
            names: Vec::new(),
            values: Vec::new(),
            captured: false,
        };
        assert(global.bindings() =~= Map::<Seq<char>, Literal>::empty());
        scopes.push(global);
        Environment { scopes }
    }

    /// Makes an empty scope under `enclosing` and gives its handle.
    pub fn new_with_enclosing(&mut self, enclosing: usize) -> (handle: usize)
        requires
            old(self).wf(),
            enclosing < old(self).count(),
        ensures
            handle == old(self).count(),
            final(self).extends(*old(self), enclosing as int),
    {
        let handle = self.scopes.len();
        let scope = Scope {
            enclosing: Some(enclosing),
            names: Vec::new(),
            values: Vec::new(),
            captured: false,
        };
        assert(scope.bindings() =~= Map::<Seq<char>, Literal>::empty());
        self.scopes.push(scope);
        handle
    }

    /// The number of scopes.
    pub fn len(&self) -> (count: usize)
        ensures
            count == self.count(),
    {
        self.scopes.len()
    }

    /// Marks a scope as captured by a function.
    pub fn capture(&mut self, scope: usize)
        requires
            old(self).wf(),
            scope < old(self).count(),
        ensures
            final(self).marks(*old(self), scope as int),
    {
        let ghost before = self.scopes@[scope as int];
        self.scopes[scope].captured = true;
        proof {
            let after = self.scopes@[scope as int];
            assert(after.names == before.names);
            assert(after.values == before.values);
            assert(after.bindings() =~= before.bindings());
            assert forall|i: int| 0 <= i < self.scopes@.len() implies {
                &&& (#[trigger] self.scopes@[i]).wf()
                &&& self.scopes@[i].enclosing matches Some(outer) ==> outer < i
            } by {
                if i != scope {
                    assert(self.scopes@[i] == old(self).scopes@[i]);
                }
            }
        }
    }

    /// Whether a function has captured the scope.
    pub fn is_captured(&self, scope: usize) -> (captured: bool)
        requires
            scope < self.count(),
        ensures
            captured == self.captured(scope as int),
    {
        self.scopes[scope].captured
    }

    /// Discards the newest scope. The global scope stays.
    pub fn discard(&mut self)
        requires
            old(self).wf(),
            old(self).count() >= 2,
        ensures
            final(self).drops(*old(self)),
    {
        self.scopes.pop();
        proof {
            assert forall|i: int| 0 <= i < self.scopes@.len() implies {
                &&& (#[trigger] self.scopes@[i]).wf()
                &&& self.scopes@[i].enclosing matches Some(outer) ==> outer < i
            } by {
                assert(self.scopes@[i] == old(self).scopes@[i]);
            }
        }
    }

    /// Reads a variable in `scope`: the value of the innermost scope, from
    /// `scope` outwards, that holds the name.
    pub fn get(&self, scope: usize, name: &Token) -> (result: Result<Literal, LoxError>)
        requires
            self.wf(),
            scope < self.count(),
        ensures
            match self.lookup(scope as int, name.lexeme@) {
                Some(value) => result == Ok::<Literal, LoxError>(value),
                None => result matches Err(error) && undefined(error, *name),
            },
    {
        let mut at = scope;
        loop
            invariant
                self.wf(),
                at < self.count(),
                self.lookup(at as int, name.lexeme@) == self.lookup(scope as int, name.lexeme@),
            decreases at,
        {
            match self.scopes[at].find(&name.lexeme) {
                Some(index) => {
                    return Ok(self.scopes[at].values[index].clone());
                },
                None => {
                    match self.scopes[at].enclosing {
                        Some(outer) => {
                            at = outer;
                        },
                        None => {
                            return Err(Self::undefined_variable(name));
                        },
                    }
                },
            }
        }
    }

    fn undefined_variable(name: &Token) -> (error: LoxError)
        ensures
            undefined(error, *name),
    {
        let mut message = String::from_str("Undefined variable '");
        message.append(name.lexeme.as_str());
        message.append("'.");
        LoxError::runtime_error(name.clone(), message)
    }

    /// Assigns to a variable in `scope`: the innermost scope, from `scope`
    /// outwards, that holds the name gets the value. Where none holds it,
    /// nothing changes.
    pub fn assign(&mut self, scope: usize, name: &Token, value: Literal) -> (result: Result<
        (),
        LoxError,
    >)
        requires
            old(self).wf(),
            scope < old(self).count(),
        ensures
            match old(self).resolve(scope as int, name.lexeme@) {
                Some(holder) => result is Ok && final(self).differs_in(
                    *old(self),
                    holder,
                    old(self).bindings(holder).insert(name.lexeme@, value),
                ),
                None => result matches Err(error) && undefined(error, *name) && *final(self)
                    == *old(self),
            },
    {
        let mut at = scope;
        loop
            invariant
                *self == *old(self),
                self.wf(),
                at < self.count(),
                self.resolve(at as int, name.lexeme@) == self.resolve(scope as int, name.lexeme@),
            decreases at,
        {
            match self.scopes[at].find(&name.lexeme) {
                Some(index) => {
                    self.store(at, index, value);
                    return Ok(());
                },
                None => {
                    match self.scopes[at].enclosing {
                        Some(outer) => {
                            at = outer;
                        },
                        None => {
                            return Err(Self::undefined_variable(name));
                        },
                    }
                },
            }
        }
    }

    /// Replaces the value in one slot of one scope.
    fn store(&mut self, scope: usize, index: usize, value: Literal)
        requires
            old(self).wf(),
            scope < old(self).count(),
            index < old(self).scopes@[scope as int].names@.len(),
        ensures
            final(self).differs_in(
                *old(self),
                scope as int,
                old(self).bindings(scope as int).insert(
                    old(self).scopes@[scope as int].names@[index as int]@,
                    value,
                ),
            ),
    {
        let ghost name = self.scopes@[scope as int].names@[index as int]@;
        let ghost before = self.scopes@[scope as int];
        self.scopes[scope].values[index] = value;
        proof {
            let after = self.scopes@[scope as int];
            assert(after.names == before.names);
            assert(after.values@ == before.values@.update(index as int, value));
            assert(after.wf());
            assert forall|other: Seq<char>| before.has(other) == after.has(other) by {}
            assert(after.has(name));
            assert(after.slot(name) == index);
            assert(after.bindings() =~= before.bindings().insert(name, value)) by {
                assert forall|other: Seq<char>| after.has(other) && other != name implies after.slot(
                    other,
                ) != index by {}
            }
            assert forall|i: int| 0 <= i < self.scopes@.len() implies {
                &&& (#[trigger] self.scopes@[i]).wf()
                &&& self.scopes@[i].enclosing matches Some(outer) ==> outer < i
            } by {
                if i != scope {
                    assert(self.scopes@[i] == old(self).scopes@[i]);
                }
            }
        }
    }

    /// Declares a variable in `scope` itself; a variable of that name that
    /// the scope already holds gets the value.
    pub fn define(&mut self, scope: usize, name: String, value: Literal)
        requires
            old(self).wf(),
            scope < old(self).count(),
        ensures
            final(self).differs_in(
                *old(self),
                scope as int,
                old(self).bindings(scope as int).insert(name@, value),
            ),
    {
        match self.scopes[scope].find(&name) {
            Some(index) => {
                self.store(scope, index, value);
            },
            None => {
                let ghost before = self.scopes@[scope as int];
                self.scopes[scope].names.push(name);
                self.scopes[scope].values.push(value);
                proof {
                    let after = self.scopes@[scope as int];
                    let last = before.names@.len() as int;
                    assert(after.names@ == before.names@.push(name));
                    assert(after.values@ == before.values@.push(value));
                    assert(after.wf());
                    assert(after.names@[last]@ == name@);
                    assert(after.has(name@));
                    assert forall|other: Seq<char>| before.has(other) implies after.has(other)
                        && after.slot(other) == before.slot(other) by {
                        let i = before.slot(other);
                        assert(after.names@[i]@ == other);
                    }
                    assert forall|other: Seq<char>| after.has(other) && other != name@ implies before.has(
                        other,
                    ) by {
                        let i = after.slot(other);
                        assert(before.names@[i]@ == other);
                    }
                    assert(after.slot(name@) == last);
                    assert(after.bindings() =~= before.bindings().insert(name@, value));
                    assert forall|i: int| 0 <= i < self.scopes@.len() implies {
                        &&& (#[trigger] self.scopes@[i]).wf()
                        &&& self.scopes@[i].enclosing matches Some(outer) ==> outer < i
                    } by {
                        if i != scope {
                            assert(self.scopes@[i] == old(self).scopes@[i]);
                        }
                    }
                }
            },
        }
    }
}

impl Environment {
    /// Whether `ancestor` is `scope` itself or one of the scopes around it.
    pub open spec fn encloses(&self, scope: int, ancestor: int) -> bool
        decreases scope,
    {
        if scope < 0 || scope >= self.count() {
            false
        } else if scope == ancestor {
            true
        } else {
            match self.enclosing(scope) {
                Some(outer) => 0 <= outer < scope && self.encloses(outer, ancestor),
                None => false,
            }
        }
    }

    /// A scope is enclosed only by itself and by scopes made before it.
    pub proof fn lemma_enclosed_by_older(&self, scope: int, ancestor: int)
        requires
            self.encloses(scope, ancestor),
        ensures
            0 <= ancestor <= scope < self.count(),
        decreases scope,
    {
        if scope != ancestor {
            self.lemma_enclosed_by_older(self.enclosing(scope)->0, ancestor);
        }
    }

    /// A name resolves to a scope around the one it is read in, and that scope
    /// holds it.
    pub proof fn lemma_resolve(&self, scope: int, name: Seq<char>)
        ensures
            self.resolve(scope, name) matches Some(holder) ==> self.encloses(scope, holder)
                && self.bindings(holder).contains_key(name),
        decreases scope,
    {
        if 0 <= scope < self.count() && !self.bindings(scope).contains_key(name) {
            match self.enclosing(scope) {
                Some(outer) => {
                    if 0 <= outer < scope {
                        self.lemma_resolve(outer, name);
                    }
                },
                None => {},
            }
        }
    }

    /// A change to the variables of one scope is not seen from a scope that
    /// the changed one does not enclose.
    pub proof fn lemma_change_is_local(
        &self,
        before: Environment,
        changed: int,
        observer: int,
        name: Seq<char>,
    )
        requires
            self.differs_in(before, changed, self.bindings(changed)),
            !before.encloses(observer, changed),
        ensures
            self.resolve(observer, name) == before.resolve(observer, name),
            self.lookup(observer, name) == before.lookup(observer, name),
        decreases observer,
    {
        if 0 <= observer < before.count() {
            assert(self.enclosing(observer) == before.enclosing(observer));
            assert(self.bindings(observer) == before.bindings(observer));
            if !before.bindings(observer).contains_key(name) {
                match before.enclosing(observer) {
                    Some(outer) => {
                        if 0 <= outer < observer {
                            self.lemma_change_is_local(before, changed, outer, name);
                        }
                    },
                    None => {},
                }
            }
        }
    }

    /// A change to the value of one variable leaves every name resolving to
    /// the scope it resolved to, and every other variable its value.
    pub proof fn lemma_value_change(
        &self,
        before: Environment,
        holder: int,
        name: Seq<char>,
        value: Literal,
        observer: int,
        read: Seq<char>,
    )
        requires
            0 <= holder < before.count(),
            before.bindings(holder).contains_key(name),
            self.differs_in(before, holder, before.bindings(holder).insert(name, value)),
        ensures
            self.resolve(observer, read) == before.resolve(observer, read),
            before.resolve(observer, read) matches Some(found) ==> self.lookup(observer, read)
                == if found == holder && read == name {
                Some(value)
            } else {
                before.lookup(observer, read)
            },
        decreases observer,
    {
        if 0 <= observer < before.count() {
            assert(self.enclosing(observer) == before.enclosing(observer));
            if observer != holder {
                assert(self.bindings(observer) == before.bindings(observer));
            }
            assert(self.bindings(observer).contains_key(read) == before.bindings(
                observer,
            ).contains_key(read));
            if !before.bindings(observer).contains_key(read) {
                match before.enclosing(observer) {
                    Some(outer) => {
                        if 0 <= outer < observer {
                            self.lemma_value_change(before, holder, name, value, outer, read);
                        }
                    },
                    None => {},
                }
            }
        }
    }

    /// A new scope reads through to its parent. Every name that the new scope
    /// does not hold itself resolves in it as it does in the scope it was
    /// made under: the body of a function reads the variables of the scope
    /// that the function captured.
    pub proof fn lemma_reads_through(
        &self,
        before: Environment,
        enclosing: int,
        bindings: Map<Seq<char>, Literal>,
        name: Seq<char>,
    )
        requires
            before.wf(),
            0 <= enclosing < before.count(),
            self.extends_with(before, enclosing, bindings),
            !bindings.contains_key(name),
        ensures
            self.resolve(before.count() as int, name) == before.resolve(enclosing, name),
            self.lookup(before.count() as int, name) == before.lookup(enclosing, name),
    {
        self.lemma_old_scopes_kept(before, enclosing, bindings, enclosing, name);
    }

    /// The scopes that were there before a new one was made read every name
    /// as before.
    pub proof fn lemma_old_scopes_kept(
        &self,
        before: Environment,
        enclosing: int,
        bindings: Map<Seq<char>, Literal>,
        observer: int,
        name: Seq<char>,
    )
        requires
            self.extends_with(before, enclosing, bindings),
            0 <= observer < before.count(),
        ensures
            self.resolve(observer, name) == before.resolve(observer, name),
            self.lookup(observer, name) == before.lookup(observer, name),
        decreases observer,
    {
        assert(self.enclosing(observer) == before.enclosing(observer));
        assert(self.bindings(observer) == before.bindings(observer));
        if !before.bindings(observer).contains_key(name) {
            match before.enclosing(observer) {
                Some(outer) => {
                    if 0 <= outer < observer {
                        self.lemma_old_scopes_kept(before, enclosing, bindings, outer, name);
                    }
                },
                None => {},
            }
        }
    }

    /// Shadowing. A variable declared in a scope is read there with the value
    /// it was declared with, and a scope that the declaring one does not
    /// enclose, such as its parent, reads every name as before.
    pub proof fn lemma_define_shadows(
        &self,
        before: Environment,
        scope: int,
        name: Seq<char>,
        value: Literal,
        observer: int,
        read: Seq<char>,
    )
        requires
            before.wf(),
            0 <= scope < before.count(),
            self.differs_in(before, scope, before.bindings(scope).insert(name, value)),
        ensures
            self.lookup(scope, name) == Some(value),
            !before.encloses(observer, scope) ==> self.lookup(observer, read) == before.lookup(
                observer,
                read,
            ),
            0 <= observer < scope ==> self.lookup(observer, read) == before.lookup(observer, read),
    {
        if !before.encloses(observer, scope) {
            self.lemma_change_is_local(before, scope, observer, read);
        }
        if 0 <= observer < scope && before.encloses(observer, scope) {
            before.lemma_enclosed_by_older(observer, scope);
        }
    }

    /// Shared bindings. Where two scopes resolve a name to the same scope, an
    /// assignment made through one of them is read through the other: the
    /// name has the new value in both.
    pub proof fn lemma_assign_is_shared(
        &self,
        before: Environment,
        writer: int,
        reader: int,
        name: Seq<char>,
        value: Literal,
    )
        requires
            before.wf(),
            before.resolve(writer, name) is Some,
            before.resolve(reader, name) == before.resolve(writer, name),
            self.differs_in(
                before,
                before.resolve(writer, name)->0,
                before.bindings(before.resolve(writer, name)->0).insert(name, value),
            ),
        ensures
            self.lookup(writer, name) == Some(value),
            self.lookup(reader, name) == Some(value),
    {
        let holder = before.resolve(writer, name)->0;
        before.lemma_resolve(writer, name);
        before.lemma_enclosed_by_older(writer, holder);
        self.lemma_value_change(before, holder, name, value, writer, name);
        self.lemma_value_change(before, holder, name, value, reader, name);
    }
}

} // verus!
