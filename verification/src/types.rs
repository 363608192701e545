//! Names that are not to be confused with one another.
use crate::text::same;
use vstd::prelude::*;

verus! {

/// The name of an agent within a pool.
#[derive(Debug, Clone, Eq, Hash)]
pub struct AgentId(String);

impl View for AgentId {
    type V = Seq<char>;

    closed spec fn view(&self) -> Seq<char> {
        self.0@
    }
}

impl AgentId {
    /// The name with this text.
    pub fn new(value: &str) -> (r: AgentId)
        ensures
            r@ == value@,
    {
        AgentId(value.to_owned())
    }

    /// The name's text.
    pub fn as_str(&self) -> (r: &str)
        ensures
            r@ == self@,
    {
        self.0.as_str()
    }
}

impl From<String> for AgentId {
    fn from(s: String) -> (r: AgentId)
        ensures
            r@ == s@,
    {
        AgentId(s)
    }
}

impl vstd::std_specs::convert::FromSpecImpl<String> for AgentId {
    open spec fn obeys_from_spec() -> bool {
        true
    }

    closed spec fn from_spec(s: String) -> AgentId {
        AgentId(s)
    }
}

impl PartialEq for AgentId {
    fn eq(&self, other: &AgentId) -> (r: bool) {
        same(&self.0, &other.0)
    }
}

impl vstd::std_specs::cmp::PartialEqSpecImpl for AgentId {
    open spec fn obeys_eq_spec() -> bool {
        true
    }

    open spec fn eq_spec(&self, other: &AgentId) -> bool {
        self@ == other@
    }
}

impl PartialEq<str> for AgentId {
    fn eq(&self, other: &str) -> (r: bool) {
        same(&self.0, other)
    }
}

impl vstd::std_specs::cmp::PartialEqSpecImpl<str> for AgentId {
    open spec fn obeys_eq_spec() -> bool {
        true
    }

    open spec fn eq_spec(&self, other: &str) -> bool {
        self@ == other@
    }
}

impl PartialEq<&str> for AgentId {
    fn eq(&self, other: &&str) -> (r: bool) {
        same(&self.0, *other)
    }
}

impl vstd::std_specs::cmp::PartialEqSpecImpl<&str> for AgentId {
    open spec fn obeys_eq_spec() -> bool {
        true
    }

    open spec fn eq_spec(&self, other: &&str) -> bool {
        self@ == other@
    }
}

impl PartialEq<String> for AgentId {
    fn eq(&self, other: &String) -> (r: bool) {
        same(&self.0, other.as_str())
    }
}

impl vstd::std_specs::cmp::PartialEqSpecImpl<String> for AgentId {
    open spec fn obeys_eq_spec() -> bool {
        true
    }

    open spec fn eq_spec(&self, other: &String) -> bool {
        self@ == other@
    }
}

/// The name of a pool, such as `abc12345`.
#[derive(Debug, Clone, Eq, Hash)]
pub struct PoolId(String);

impl View for PoolId {
    type V = Seq<char>;

    closed spec fn view(&self) -> Seq<char> {
        self.0@
    }
}

impl PoolId {
    /// The name with this text.
    pub fn new(value: &str) -> (r: PoolId)
        ensures
            r@ == value@,
    {
        PoolId(value.to_owned())
    }

    /// The name's text.
    pub fn as_str(&self) -> (r: &str)
        ensures
            r@ == self@,
    {
        self.0.as_str()
    }
}

impl From<String> for PoolId {
    fn from(s: String) -> (r: PoolId)
        ensures
            r@ == s@,
    {
        PoolId(s)
    }
}

impl vstd::std_specs::convert::FromSpecImpl<String> for PoolId {
    open spec fn obeys_from_spec() -> bool {
        true
    }

    closed spec fn from_spec(s: String) -> PoolId {
        PoolId(s)
    }
}

impl PartialEq for PoolId {
    fn eq(&self, other: &PoolId) -> (r: bool) {
        same(&self.0, &other.0)
    }
}

impl vstd::std_specs::cmp::PartialEqSpecImpl for PoolId {
    open spec fn obeys_eq_spec() -> bool {
        true
    }

    open spec fn eq_spec(&self, other: &PoolId) -> bool {
        self@ == other@
    }
}

impl PartialEq<str> for PoolId {
    fn eq(&self, other: &str) -> (r: bool) {
        same(&self.0, other)
    }
}

impl vstd::std_specs::cmp::PartialEqSpecImpl<str> for PoolId {
    open spec fn obeys_eq_spec() -> bool {
        true
    }

    open spec fn eq_spec(&self, other: &str) -> bool {
        self@ == other@
    }
}

impl PartialEq<&str> for PoolId {
    fn eq(&self, other: &&str) -> (r: bool) {
        same(&self.0, *other)
    }
}

impl vstd::std_specs::cmp::PartialEqSpecImpl<&str> for PoolId {
    open spec fn obeys_eq_spec() -> bool {
        true
    }

    open spec fn eq_spec(&self, other: &&str) -> bool {
        self@ == other@
    }
}

impl PartialEq<String> for PoolId {
    fn eq(&self, other: &String) -> (r: bool) {
        same(&self.0, other.as_str())
    }
}

impl vstd::std_specs::cmp::PartialEqSpecImpl<String> for PoolId {
    open spec fn obeys_eq_spec() -> bool {
        true
    }

    open spec fn eq_spec(&self, other: &String) -> bool {
        self@ == other@
    }
}

} // verus!
