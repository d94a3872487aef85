//! Limits of the memory a wasm module may hand over at once.

use vstd::prelude::*;

verus! {

#[derive(Debug, Clone, Copy)]
pub enum MemoryLimit {
    OneMebiByte,
    TenMebiBytes,
    OneGibiByte,
}

impl MemoryLimit {
    pub open spec fn spec_limit(self) -> nat {
        match self {
            MemoryLimit::OneMebiByte => 1024 * 1024,
            MemoryLimit::TenMebiBytes => 1024 * 1024 * 10,
            MemoryLimit::OneGibiByte => 1024 * 1024 * 1024,
        }
    }

    pub fn limit(&self) -> (r: usize)
        ensures
            r == self.spec_limit(),
    {
        match self {
            MemoryLimit::OneMebiByte => 1024 * 1024,
            MemoryLimit::TenMebiBytes => 1024 * 1024 * 10,
            MemoryLimit::OneGibiByte => 1024 * 1024 * 1024,
        }
    }
}

impl From<MemoryLimit> for usize {
    fn from(val: MemoryLimit) -> (r: usize) {
        val.limit()
    }
}

impl vstd::std_specs::convert::FromSpecImpl<MemoryLimit> for usize {
    open spec fn obeys_from_spec() -> bool {
        true
    }

    open spec fn from_spec(v: MemoryLimit) -> usize {
        v.spec_limit() as usize
    }
}

} // verus!
