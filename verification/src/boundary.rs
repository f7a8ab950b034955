//! The calls that cross from native code into the host.
//!
//! Only numbers cross the boundary, each carried as a double. A call is a
//! fixed host script with positional numeric arguments, which the script
//! names `$0`, `$1`, ... This module describes the calls; making them is the
//! embedder's part.
use vstd::prelude::*;

verus! {

/// The largest integer `n` such that a double holds every integer from `-n` to `n` exactly.
pub const MAX_SAFE_INTEGER: i64 = 9007199254740991;

/// A double holds the integer `v` exactly, so `v` can cross the boundary.
pub open spec fn is_safe(v: int) -> bool {
    -MAX_SAFE_INTEGER <= v <= MAX_SAFE_INTEGER
}

/// What a call hands back to native code.
#[derive(Clone, Copy, Debug, PartialEq, Eq, Structural)]
pub enum ReplyKind {
    Nothing,
    Integer,
    Double,
}

/// One call into the host. Each variant is one script of the protocol and
/// holds exactly the arguments that its script names, so a call whose
/// arguments and signature differ in number cannot be written down.
#[derive(Clone, Copy, Debug, PartialEq, Eq, Structural)]
pub enum BoundaryCall {
    /// Frees the table slot of `handle`.
    Release { handle: u32 },
    /// Stores a fresh empty array in the table and returns its handle.
    NewArray,
    /// Appends the number `value` to the array at `array`.
    PushValue { array: u32, value: i64 },
    /// Appends the host value at `element` to the array at `array`.
    PushObject { array: u32, element: u32 },
    /// Returns the host value at `handle`, coerced to a number.
    LoadNumber { handle: u32 },
    /// Returns the host value at `handle`, coerced to an integer, which is zero for false.
    LoadBoolean { handle: u32 },
    /// Has the host read `units` code units of UTF-16 at `address`, store the
    /// string that they spell, and return its handle.
    StoreString { address: i64, units: i64 },
    /// Has the host copy the string at `handle` into a fresh transfer buffer
    /// and return the buffer's address.
    FetchString { handle: u32 },
}

/// `s` ends in a NUL and holds no other.
pub open spec fn nul_terminated(s: Seq<char>) -> bool {
    s.len() > 0 && s.last() == '\0' && forall|i: int| 0 <= i < s.len() - 1 ==> s[i] != '\0'
}

/// `bytes` end in a NUL and hold no other: they are a script as the host takes it.
pub open spec fn is_script(bytes: Seq<u8>) -> bool {
    bytes.len() > 0 && bytes.last() == 0 && forall|i: int|
        0 <= i < bytes.len() - 1 ==> bytes[i] != 0
}

/// Tells whether `bytes` are a script as the host takes it: text that ends
/// in its only NUL.
pub fn terminated(bytes: &[u8]) -> (r: bool)
    ensures
        r == is_script(bytes@),
{
    let n: usize = bytes.len();
    if n == 0 || bytes[n - 1] != 0 {
        return false;
    }
    let mut i: usize = 0;
    while i < n - 1
        invariant
            n == bytes.len(),
            n > 0,
            i <= n - 1,
            forall|k: int| 0 <= k < i ==> bytes[k] != 0,
        decreases n - i,
    {
        if bytes[i] == 0 {
            return false;
        }
        i += 1;
    }
    true
}

impl BoundaryCall {
    /// The host script of the call, with its terminating NUL.
    pub open spec fn script_text(self) -> Seq<char> {
        match self {
            BoundaryCall::Release { .. } => "HELPERJS.releaseObject($0);\0"@,
            BoundaryCall::NewArray => "return HELPERJS.storeObject([]);\0"@,
            BoundaryCall::PushValue { .. } => "HELPERJS.loadObject($0).push($1)\0"@,
            BoundaryCall::PushObject { .. } => "HELPERJS.loadObject($0).push(HELPERJS.loadObject($1))\0"@,
            BoundaryCall::LoadNumber { .. } => "return HELPERJS.loadObject($0);\0"@,
            BoundaryCall::LoadBoolean { .. } => "return HELPERJS.loadObject($0);\0"@,
            BoundaryCall::StoreString { .. } => "return HELPERJS.storeObject(HELPERJS.copyStringFromHeap($0, $1));\0"@,
            BoundaryCall::FetchString { .. } => "return HELPERJS.copyStringToHeap(HELPERJS.loadObject($0));\0"@,
        }
    }

    /// The arguments of the call in the order in which its script numbers them.
    pub open spec fn arguments(self) -> Seq<i64> {
        match self {
            BoundaryCall::Release { handle } => seq![handle as i64],
            BoundaryCall::NewArray => Seq::empty(),
            BoundaryCall::PushValue { array, value } => seq![array as i64, value],
            BoundaryCall::PushObject { array, element } => seq![array as i64, element as i64],
            BoundaryCall::LoadNumber { handle } => seq![handle as i64],
            BoundaryCall::LoadBoolean { handle } => seq![handle as i64],
            BoundaryCall::StoreString { address, units } => seq![address, units],
            BoundaryCall::FetchString { handle } => seq![handle as i64],
        }
    }

    /// What the call hands back.
    pub open spec fn reply_kind(self) -> ReplyKind {
        match self {
            BoundaryCall::Release { .. } => ReplyKind::Nothing,
            BoundaryCall::PushValue { .. } => ReplyKind::Nothing,
            BoundaryCall::PushObject { .. } => ReplyKind::Nothing,
            BoundaryCall::LoadNumber { .. } => ReplyKind::Double,
            _ => ReplyKind::Integer,
        }
    }

    /// Every argument can cross the boundary unchanged.
    pub open spec fn well_formed(self) -> bool {
        match self {
            BoundaryCall::PushValue { value, .. } => is_safe(value as int),
            BoundaryCall::StoreString { address, units } => 0 <= address && 0 <= units && address
                + 2 * units <= MAX_SAFE_INTEGER,
            _ => true,
        }
    }

    /// The host script of the call: a NUL-terminated text that names the
    /// arguments `$0`, `$1`, ...
    pub fn script(&self) -> (r: &'static str)
        ensures
            r@ == self.script_text(),
            nul_terminated(r@),
    {
        proof {
            reveal_strlit("HELPERJS.releaseObject($0);\0");
            reveal_strlit("return HELPERJS.storeObject([]);\0");
            reveal_strlit("HELPERJS.loadObject($0).push($1)\0");
            reveal_strlit("HELPERJS.loadObject($0).push(HELPERJS.loadObject($1))\0");
            reveal_strlit("return HELPERJS.loadObject($0);\0");
            reveal_strlit("return HELPERJS.storeObject(HELPERJS.copyStringFromHeap($0, $1));\0");
            reveal_strlit("return HELPERJS.copyStringToHeap(HELPERJS.loadObject($0));\0");
        }
        match self {
            BoundaryCall::Release { .. } => "HELPERJS.releaseObject($0);\0",
            BoundaryCall::NewArray => "return HELPERJS.storeObject([]);\0",
            BoundaryCall::PushValue { .. } => "HELPERJS.loadObject($0).push($1)\0",
            BoundaryCall::PushObject { .. } => "HELPERJS.loadObject($0).push(HELPERJS.loadObject($1))\0",
            BoundaryCall::LoadNumber { .. } => "return HELPERJS.loadObject($0);\0",
            BoundaryCall::LoadBoolean { .. } => "return HELPERJS.loadObject($0);\0",
            BoundaryCall::StoreString { .. } => "return HELPERJS.storeObject(HELPERJS.copyStringFromHeap($0, $1));\0",
            BoundaryCall::FetchString { .. } => "return HELPERJS.copyStringToHeap(HELPERJS.loadObject($0));\0",
        }
    }

    /// The arguments of the call, in the order in which its script numbers them.
    pub fn args(&self) -> (r: Vec<i64>)
        ensures
            r@ == self.arguments(),
            self.well_formed() ==> forall|i: int| 0 <= i < r.len() ==> is_safe(#[trigger] r[i] as int),
    {
        let mut out: Vec<i64> = Vec::new();
        match *self {
            BoundaryCall::NewArray => {},
            BoundaryCall::Release { handle }
            | BoundaryCall::LoadNumber { handle }
            | BoundaryCall::LoadBoolean { handle }
            | BoundaryCall::FetchString { handle } => {
                out.push(handle as i64);
            },
            BoundaryCall::PushValue { array, value } => {
                out.push(array as i64);
                out.push(value);
            },
            BoundaryCall::PushObject { array, element } => {
                out.push(array as i64);
                out.push(element as i64);
            },
            BoundaryCall::StoreString { address, units } => {
                out.push(address);
                out.push(units);
            },
        }
        out
    }

    /// The type signature of the arguments: one `d`, for a double, for each.
    pub fn signature(&self) -> (r: Vec<u8>)
        ensures
            r.len() == self.arguments().len(),
            forall|i: int| 0 <= i < r.len() ==> r[i] == 100u8,
    {
        let count: usize = match self {
            BoundaryCall::NewArray => 0,
            BoundaryCall::Release { .. }
            | BoundaryCall::LoadNumber { .. }
            | BoundaryCall::LoadBoolean { .. }
            | BoundaryCall::FetchString { .. } => 1,
            BoundaryCall::PushValue { .. }
            | BoundaryCall::PushObject { .. }
            | BoundaryCall::StoreString { .. } => 2,
        };
        let mut out: Vec<u8> = Vec::new();
        while out.len() < count
            invariant
                out.len() <= count,
                forall|i: int| 0 <= i < out.len() ==> out[i] == 100u8,
            decreases count - out.len(),
        {
            out.push(100u8);
        }
        out
    }

    /// What the call hands back.
    pub fn reply(&self) -> (r: ReplyKind)
        ensures
            r == self.reply_kind(),
    {
        match self {
            BoundaryCall::Release { .. }
            | BoundaryCall::PushValue { .. }
            | BoundaryCall::PushObject { .. } => ReplyKind::Nothing,
            BoundaryCall::LoadNumber { .. } => ReplyKind::Double,
            BoundaryCall::NewArray
            | BoundaryCall::LoadBoolean { .. }
            | BoundaryCall::StoreString { .. }
            | BoundaryCall::FetchString { .. } => ReplyKind::Integer,
        }
    }
}

} // verus!
