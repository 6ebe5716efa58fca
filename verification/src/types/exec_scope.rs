//! The scopes of named values that hints share between one another.

use crate::felt::Felt252;
use crate::types::bignum::BigNum;
use crate::vm::errors::hint_errors::HintError;
use vstd::prelude::*;
use vstd::string::StringExecFns;

verus! {

/// A value that a hint keeps for a later hint.
#[derive(Debug, Clone, PartialEq, Eq)]
pub enum ScopeValue {
    Felt(Felt252),
    U64(u64),
    BigInt(BigNum),
}

/// A stack of scopes; names are looked up in the innermost one.
#[derive(Debug)]
pub struct ExecutionScopes {
    pub data: Vec<Vec<(String, ScopeValue)>>,
}

/// Whether no name occurs twice in a scope.
pub open spec fn scope_names_once(scope: Seq<(String, ScopeValue)>) -> bool {
    forall|i: int, j: int|
        0 <= i < j < scope.len() ==> (#[trigger] scope[i]).0@ != (#[trigger] scope[j]).0@
}

/// The index of the last entry called `name` among the first `n` of a scope.
pub open spec fn last_named(scope: Seq<(String, ScopeValue)>, name: Seq<char>, n: int) -> Option<
    int,
>
    decreases n,
{
    if n <= 0 {
        None
    } else if scope[n - 1].0@ == name {
        Some(n - 1)
    } else {
        last_named(scope, name, n - 1)
    }
}

impl ExecutionScopes {
    /// The main scope, empty.
    pub fn new() -> (r: ExecutionScopes)
        ensures
            r.data@.len() == 1,
            r.data@[0]@.len() == 0,
            r.well_formed(),
    {
        let mut data: Vec<Vec<(String, ScopeValue)>> = Vec::new();
        data.push(Vec::new());
        ExecutionScopes { data }
    }

    /// The value of `name` in the innermost scope.
    pub open spec fn lookup(&self, name: Seq<char>) -> Option<ScopeValue> {
        if self.data@.len() == 0 {
            None
        } else {
            let scope = self.data@[self.data@.len() - 1]@;
            match last_named(scope, name, scope.len() as int) {
                Some(i) => Some(scope[i].1),
                None => None,
            }
        }
    }

    /// Opens a new innermost scope with the given values.
    pub fn enter_scope(&mut self, new_scope_locals: Vec<(String, ScopeValue)>)
        ensures
            final(self).data@ == old(self).data@.push(new_scope_locals),
            old(self).well_formed() && scope_names_once(new_scope_locals@) ==> final(self).well_formed(),
    {
        self.data.push(new_scope_locals);
    }

    /// Closes the innermost scope; the main scope cannot be closed.
    pub fn exit_scope(&mut self) -> (r: Result<(), HintError>)
        ensures
            old(self).data@.len() <= 1 ==> r == Err::<(), HintError>(HintError::FromScopeError)
                && final(self).data@ == old(self).data@,
            old(self).data@.len() > 1 ==> r is Ok && final(self).data@ == old(self).data@.drop_last(),
            old(self).well_formed() ==> final(self).well_formed(),
    {
        if self.data.len() <= 1 {
            return Err(HintError::FromScopeError);
        }
        self.data.pop();
        Ok(())
    }

    /// Finds the last entry called `name` in the innermost scope.
    fn find(&self, name: &str) -> (r: Option<usize>)
        requires
            self.data@.len() > 0,
        ensures
            r matches Some(i) ==> i < self.data@[self.data@.len() - 1]@.len() && last_named(
                self.data@[self.data@.len() - 1]@,
                name@,
                self.data@[self.data@.len() - 1]@.len() as int,
            ) == Some(i as int),
            r is None ==> last_named(
                self.data@[self.data@.len() - 1]@,
                name@,
                self.data@[self.data@.len() - 1]@.len() as int,
            ) is None,
    {
        let wanted = String::from_str(name);
        let scope = &self.data[self.data.len() - 1];
        let mut n: usize = scope.len();
        while n > 0
            invariant
                n <= scope@.len(),
                wanted@ == name@,
                self.data@.len() > 0,
                *scope == self.data@[self.data@.len() - 1],
                last_named(scope@, name@, scope@.len() as int) == last_named(
                    scope@,
                    name@,
                    n as int,
                ),
            decreases n,
        {
            if scope[n - 1].0 == wanted {
                return Some(n - 1);
            }
            n = n - 1;
        }
        None
    }

    /// The value of `name` in the innermost scope.
    pub fn get_any(&self, name: &str) -> (r: Result<&ScopeValue, HintError>)
        ensures
            match self.lookup(name@) {
                Some(value) => r matches Ok(found) && *found == value,
                None => r matches Err(HintError::VariableNotInScopeError(n)) && n@ == name@,
            },
    {
        if self.data.len() == 0 {
            return Err(HintError::VariableNotInScopeError(String::from_str(name)));
        }
        match self.find(name) {
            Some(i) => {
                let last = self.data.len() - 1;
                Ok(&self.data[last][i].1)
            },
            None => Err(HintError::VariableNotInScopeError(String::from_str(name))),
        }
    }

    /// The field element called `name` in the innermost scope.
    pub fn get(&self, name: &str) -> (r: Result<Felt252, HintError>)
        ensures
            match self.lookup(name@) {
                Some(ScopeValue::Felt(value)) => r == Ok::<Felt252, HintError>(value),
                _ => r matches Err(HintError::VariableNotInScopeError(n)) && n@ == name@,
            },
    {
        match self.get_any(name) {
            Ok(ScopeValue::Felt(value)) => Ok(*value),
            Ok(_) => Err(HintError::VariableNotInScopeError(String::from_str(name))),
            Err(e) => Err(e),
        }
    }

    /// The integer called `name` in the innermost scope.
    pub fn get_bignum(&self, name: &str) -> (r: Result<&BigNum, HintError>)
        ensures
            match self.lookup(name@) {
                Some(ScopeValue::BigInt(value)) => r matches Ok(found) && *found == value,
                _ => r matches Err(HintError::VariableNotInScopeError(n)) && n@ == name@,
            },
    {
        match self.get_any(name) {
            Ok(ScopeValue::BigInt(value)) => Ok(value),
            Ok(_) => Err(HintError::VariableNotInScopeError(String::from_str(name))),
            Err(e) => Err(e),
        }
    }

    /// Whether every scope is a map: no name occurs twice in it.
    pub open spec fn well_formed(&self) -> bool {
        forall|k: int| 0 <= k < self.data@.len() ==> scope_names_once((#[trigger] self.data@[k])@)
    }

    /// Binds `name` to `value` in the innermost scope; a binding made before is
    /// replaced, so a name occurs once.
    pub fn assign_or_update_variable(&mut self, name: &str, value: ScopeValue)
        ensures
            final(self).lookup(name@) == Some(value),
            final(self).data@.len() == (if old(self).data@.len() == 0 {
                1
            } else {
                old(self).data@.len()
            }),
            forall|other: Seq<char>|
                other != name@ ==> final(self).lookup(other) == old(self).lookup(other),
            old(self).well_formed() ==> final(self).well_formed(),
    {
        let ghost empty_before = self.data@.len() == 0;
        if self.data.len() == 0 {
            self.data.push(Vec::new());
        }
        let last = self.data.len() - 1;
        let ghost stack = self.data@;
        let ghost before = self.data@[last as int]@;
        let found = self.find(name);
        match found {
            Some(i) => {
                self.data[last].set(i, (String::from_str(name), value));
            },
            None => {
                self.data[last].push((String::from_str(name), value));
            },
        }
        proof {
            let after = self.data@[last as int]@;
            let n = before.len() as int;
            lemma_last_named_bound(before, name@, n);
            match found {
                Some(i) => {
                    assert(after.len() == n);
                    assert forall|k: int| 0 <= k < n implies (#[trigger] after[k]).0@
                        == before[k].0@ by {}
                    lemma_same_names(before, after, name@, n);
                    assert forall|other: Seq<char>| other != name@ implies self.lookup(other)
                        == old(self).lookup(other) by {
                        lemma_same_names(before, after, other, n);
                        lemma_last_named_bound(before, other, n);
                    }
                },
                None => {
                    assert(after.len() == n + 1);
                    assert(after[n].0@ == name@);
                    assert(last_named(after, name@, after.len() as int) == Some(n));
                    lemma_not_named(before, name@, n);
                    assert forall|other: Seq<char>| other != name@ implies self.lookup(other)
                        == old(self).lookup(other) by {
                        lemma_last_named_prefix(before, after, other, n);
                        assert(last_named(after, other, after.len() as int) == last_named(
                            after,
                            other,
                            n,
                        ));
                        if !empty_before {
                            match last_named(before, other, n) {
                                Some(i) => {
                                    lemma_last_named_bound(before, other, n);
                                    assert(after[i] == before[i]);
                                },
                                None => {},
                            }
                        }
                    }
                },
            }
            if old(self).well_formed() {
                assert forall|k: int| 0 <= k < self.data@.len() implies scope_names_once(
                    (#[trigger] self.data@[k])@,
                ) by {
                    if k != last {
                        assert(self.data@[k] == stack[k]);
                        assert(scope_names_once(stack[k]@));
                    } else {
                        if !empty_before {
                            assert(scope_names_once(old(self).data@[k]@));
                        }
                        assert forall|i: int, j: int| 0 <= i < j < after.len() implies (
                        #[trigger] after[i]).0@ != (#[trigger] after[j]).0@ by {
                            if j < n {
                                assert(before[i].0@ != before[j].0@);
                            }
                        }
                    }
                }
            }
        }
    }

    /// Binds `name` to `value` in the innermost scope.
    pub fn insert_value(&mut self, name: &str, value: ScopeValue)
        ensures
            final(self).lookup(name@) == Some(value),
            forall|other: Seq<char>|
                other != name@ ==> final(self).lookup(other) == old(self).lookup(other),
            old(self).well_formed() ==> final(self).well_formed(),
    {
        self.assign_or_update_variable(name, value);
    }
}

/// The index that a lookup answers with lies in the range it searched.
pub proof fn lemma_last_named_bound(scope: Seq<(String, ScopeValue)>, name: Seq<char>, n: int)
    requires
        0 <= n <= scope.len(),
    ensures
        last_named(scope, name, n) matches Some(i) ==> 0 <= i < n && scope[i].0@ == name,
    decreases n,
{
    if n > 0 {
        lemma_last_named_bound(scope, name, n - 1);
    }
}

/// Where no entry among the first `n` is called `name`, none of them has
/// that name.
pub proof fn lemma_not_named(scope: Seq<(String, ScopeValue)>, name: Seq<char>, n: int)
    requires
        0 <= n <= scope.len(),
        last_named(scope, name, n) is None,
    ensures
        forall|k: int| 0 <= k < n ==> (#[trigger] scope[k]).0@ != name,
    decreases n,
{
    if n > 0 {
        lemma_not_named(scope, name, n - 1);
    }
}

/// Two scopes with the same names in their first `n` entries find a name at
/// the same place.
pub proof fn lemma_same_names(
    a: Seq<(String, ScopeValue)>,
    b: Seq<(String, ScopeValue)>,
    name: Seq<char>,
    n: int,
)
    requires
        0 <= n <= a.len(),
        n <= b.len(),
        forall|i: int| 0 <= i < n ==> (#[trigger] b[i]).0@ == a[i].0@,
    ensures
        last_named(a, name, n) == last_named(b, name, n),
    decreases n,
{
    if n > 0 {
        lemma_same_names(a, b, name, n - 1);
        assert(b[n - 1].0@ == a[n - 1].0@);
    }
}

/// Two scopes that agree on their first `n` entries give the same answer there.
pub proof fn lemma_last_named_prefix(
    a: Seq<(String, ScopeValue)>,
    b: Seq<(String, ScopeValue)>,
    name: Seq<char>,
    n: int,
)
    requires
        0 <= n <= a.len(),
        n <= b.len(),
        forall|i: int| 0 <= i < n ==> a[i] == b[i],
    ensures
        last_named(a, name, n) == last_named(b, name, n),
    decreases n,
{
    if n > 0 {
        lemma_last_named_prefix(a, b, name, n - 1);
    }
}

} // verus!
