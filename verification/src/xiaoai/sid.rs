//! The Xiaomi service a login is scoped to.

use vstd::prelude::*;

verus! {

#[derive(Debug, Clone, Copy, PartialEq, Eq, Structural)]
pub enum Sid {
    Micoapi,
    Xiaomiio,
}

impl Default for Sid {
    fn default() -> (r: Self)
        ensures
            r == Sid::Micoapi,
    {
        Sid::Micoapi
    }
}

impl Sid {
    /// The name of the service.
    pub open spec fn named(self) -> Seq<char> {
        match self {
            Sid::Micoapi => "micoapi"@,
            Sid::Xiaomiio => "xiaomiio"@,
        }
    }

    /// The name of the service.
    pub fn name(&self) -> (r: &'static str)
        ensures
            r@ == self.named(),
    {
        match self {
            Sid::Micoapi => "micoapi",
            Sid::Xiaomiio => "xiaomiio",
        }
    }
}

/// The two services go by different names.
pub proof fn services_are_told_apart_by_name(a: Sid, b: Sid)
    ensures
        a.named() == b.named() <==> a == b,
{
    reveal_strlit("micoapi");
    reveal_strlit("xiaomiio");
    assert("micoapi"@.len() == 7 && "xiaomiio"@.len() == 8);
}

} // verus!
