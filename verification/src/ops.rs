//! The operation model: the closed set of image transforms and the ordered
//! chain that composes them.

use vstd::prelude::*;

verus! {

/// Resampling algorithm used by a resize.
#[derive(Clone, Copy, Debug, PartialEq, Eq, Structural)]
pub enum ResizeFilterKind {
    Nearest,
    Triangle,
    CatmullRom,
    Gaussian,
    Lanczos3,
}

/// Number of resampling algorithms; ordinals are `0..RESIZE_FILTER_KINDS`.
pub const RESIZE_FILTER_KINDS: u8 = 5;

impl ResizeFilterKind {
    /// The stable ordinal of this kind.
    pub open spec fn spec_ordinal(self) -> u8 {
        match self {
            ResizeFilterKind::Nearest => 0,
            ResizeFilterKind::Triangle => 1,
            ResizeFilterKind::CatmullRom => 2,
            ResizeFilterKind::Gaussian => 3,
            ResizeFilterKind::Lanczos3 => 4,
        }
    }

    /// The kind with the given ordinal, if there is one.
    pub open spec fn spec_from_ordinal(n: u8) -> Option<ResizeFilterKind> {
        if n == 0 {
            Some(ResizeFilterKind::Nearest)
        } else if n == 1 {
            Some(ResizeFilterKind::Triangle)
        } else if n == 2 {
            Some(ResizeFilterKind::CatmullRom)
        } else if n == 3 {
            Some(ResizeFilterKind::Gaussian)
        } else if n == 4 {
            Some(ResizeFilterKind::Lanczos3)
        } else {
            None
        }
    }

    #[verifier::when_used_as_spec(spec_ordinal)]
    pub fn ordinal(self) -> (n: u8)
        ensures
            n == self.spec_ordinal(),
            n < RESIZE_FILTER_KINDS,
    {
        match self {
            ResizeFilterKind::Nearest => 0,
            ResizeFilterKind::Triangle => 1,
            ResizeFilterKind::CatmullRom => 2,
            ResizeFilterKind::Gaussian => 3,
            ResizeFilterKind::Lanczos3 => 4,
        }
    }

    #[verifier::when_used_as_spec(spec_from_ordinal)]
    pub fn from_ordinal(n: u8) -> (kind: Option<ResizeFilterKind>)
        ensures
            kind == Self::spec_from_ordinal(n),
            kind is Some <==> n < RESIZE_FILTER_KINDS,
            kind is Some ==> kind.unwrap().spec_ordinal() == n,
    {
        match n {
            0 => Some(ResizeFilterKind::Nearest),
            1 => Some(ResizeFilterKind::Triangle),
            2 => Some(ResizeFilterKind::CatmullRom),
            3 => Some(ResizeFilterKind::Gaussian),
            4 => Some(ResizeFilterKind::Lanczos3),
            _ => None,
        }
    }
}

/// Colour preset applied by a filter operation.
#[derive(Clone, Copy, Debug, PartialEq, Eq, Structural)]
pub enum FilterKind {
    Normal,
    Sepia,
    Oceanic,
    Islands,
    Marine,
}

/// Number of filter presets; ordinals are `0..FILTER_KINDS`.
pub const FILTER_KINDS: u8 = 5;

impl FilterKind {
    /// The stable ordinal of this preset.
    pub open spec fn spec_ordinal(self) -> u8 {
        match self {
            FilterKind::Normal => 0,
            FilterKind::Sepia => 1,
            FilterKind::Oceanic => 2,
            FilterKind::Islands => 3,
            FilterKind::Marine => 4,
        }
    }

    /// The preset with the given ordinal, if there is one.
    pub open spec fn spec_from_ordinal(n: u8) -> Option<FilterKind> {
        if n == 0 {
            Some(FilterKind::Normal)
        } else if n == 1 {
            Some(FilterKind::Sepia)
        } else if n == 2 {
            Some(FilterKind::Oceanic)
        } else if n == 3 {
            Some(FilterKind::Islands)
        } else if n == 4 {
            Some(FilterKind::Marine)
        } else {
            None
        }
    }

    #[verifier::when_used_as_spec(spec_ordinal)]
    pub fn ordinal(self) -> (n: u8)
        ensures
            n == self.spec_ordinal(),
            n < FILTER_KINDS,
    {
        match self {
            FilterKind::Normal => 0,
            FilterKind::Sepia => 1,
            FilterKind::Oceanic => 2,
            FilterKind::Islands => 3,
            FilterKind::Marine => 4,
        }
    }

    #[verifier::when_used_as_spec(spec_from_ordinal)]
    pub fn from_ordinal(n: u8) -> (kind: Option<FilterKind>)
        ensures
            kind == Self::spec_from_ordinal(n),
            kind is Some <==> n < FILTER_KINDS,
            kind is Some ==> kind.unwrap().spec_ordinal() == n,
    {
        match n {
            0 => Some(FilterKind::Normal),
            1 => Some(FilterKind::Sepia),
            2 => Some(FilterKind::Oceanic),
            3 => Some(FilterKind::Islands),
            4 => Some(FilterKind::Marine),
            _ => None,
        }
    }
}

/// One image transform with its parameters.
#[derive(Clone, Copy, Debug, PartialEq, Eq, Structural)]
pub enum Operation {
    /// Scale the image to `width` x `height` pixels.
    Resize { width: u32, height: u32, filter: ResizeFilterKind },
    /// Stamp the watermark with its top-left corner at (`x`, `y`).
    Watermark { x: u32, y: u32 },
    /// Apply a colour preset.
    Filter { kind: FilterKind },
}

impl Operation {
    /// Whether the parameters are in range: a resize needs a non-zero width
    /// and height; the other variants accept every value of their fields.
    pub open spec fn valid(self) -> bool {
        match self {
            Operation::Resize { width, height, filter } => width > 0 && height > 0,
            Operation::Watermark { x, y } => true,
            Operation::Filter { kind } => true,
        }
    }

    /// A resize, or `None` when a dimension is zero.
    pub fn new_resize(width: u32, height: u32, filter: ResizeFilterKind) -> (op: Option<Operation>)
        ensures
            op == if width > 0 && height > 0 {
                Some(Operation::Resize { width, height, filter })
            } else {
                None
            },
    {
        if width > 0 && height > 0 {
            Some(Operation::Resize { width, height, filter })
        } else {
            None
        }
    }

    /// A watermark at (`x`, `y`).
    pub fn new_watermark(x: u32, y: u32) -> (op: Operation)
        ensures
            op == (Operation::Watermark { x, y }),
    {
        Operation::Watermark { x, y }
    }

    /// A filter with the given preset.
    pub fn new_filter(kind: FilterKind) -> (op: Operation)
        ensures
            op == (Operation::Filter { kind }),
    {
        Operation::Filter { kind }
    }

    #[verifier::when_used_as_spec(valid)]
    pub fn is_valid(self) -> (ok: bool)
        ensures
            ok == self.valid(),
    {
        match self {
            Operation::Resize { width, height, filter } => width > 0 && height > 0,
            Operation::Watermark { x, y } => true,
            Operation::Filter { kind } => true,
        }
    }
}

/// Whether every operation of `ops` has in-range parameters.
pub open spec fn all_valid(ops: Seq<Operation>) -> bool {
    forall|i: int| 0 <= i < ops.len() ==> (#[trigger] ops[i]).valid()
}

/// An ordered list of operations, applied left to right.
#[derive(Debug)]
pub struct OperationChain {
    ops: Vec<Operation>,
}

impl View for OperationChain {
    type V = Seq<Operation>;

    closed spec fn view(&self) -> Seq<Operation> {
        self.ops@
    }
}

impl OperationChain {
    /// The chain holding `ops` in the given order.
    pub fn new(ops: Vec<Operation>) -> (chain: OperationChain)
        ensures
            chain@ == ops@,
    {
        OperationChain { ops }
    }

    /// The chain holding `ops`, or `None` if one of them has a parameter
    /// out of range.
    pub fn try_new(ops: Vec<Operation>) -> (chain: Option<OperationChain>)
        ensures
            match chain {
                Some(chain) => all_valid(ops@) && chain@ == ops@,
                None => !all_valid(ops@),
            },
    {
        let chain = OperationChain { ops };
        if chain.is_valid() {
            Some(chain)
        } else {
            None
        }
    }

    pub fn len(&self) -> (n: usize)
        ensures
            n == self@.len(),
    {
        self.ops.len()
    }

    pub fn is_empty(&self) -> (empty: bool)
        ensures
            empty == (self@.len() == 0),
    {
        self.ops.len() == 0
    }

    /// The operation at position `index`, or `None` past the end.
    pub fn get(&self, index: usize) -> (op: Option<Operation>)
        ensures
            op == if index < self@.len() {
                Some(self@[index as int])
            } else {
                None
            },
    {
        if index < self.ops.len() {
            Some(self.ops[index])
        } else {
            None
        }
    }

    /// The operations in order.
    pub fn operations(&self) -> (ops: &Vec<Operation>)
        ensures
            ops@ == self@,
    {
        &self.ops
    }

    /// Whether every operation of the chain has in-range parameters.
    pub fn is_valid(&self) -> (ok: bool)
        ensures
            ok == all_valid(self@),
    {
        let mut i: usize = 0;
        while i < self.ops.len()
            invariant
                i <= self.ops.len(),
                forall|j: int| 0 <= j < i ==> (#[trigger] self.ops@[j]).valid(),
            decreases self.ops.len() - i,
        {
            if !self.ops[i].is_valid() {
                return false;
            }
            i += 1;
        }
        true
    }
}

impl Clone for OperationChain {
    fn clone(&self) -> (copy: OperationChain)
        ensures
            copy@ == self@,
    {
        let mut ops: Vec<Operation> = Vec::new();
        let mut i: usize = 0;
        while i < self.ops.len()
            invariant
                i <= self.ops.len(),
                ops@ == self.ops@.take(i as int),
            decreases self.ops.len() - i,
        {
            ops.push(self.ops[i]);
            proof {
                let next = self.ops@[i as int];
                assert(self.ops@.take(i + 1) =~= self.ops@.take(i as int).push(next));
            }
            i += 1;
        }
        proof {
            assert(self.ops@.take(i as int) =~= self.ops@);
        }
        OperationChain { ops }
    }
}

impl PartialEq for OperationChain {
    fn eq(&self, other: &OperationChain) -> (equal: bool) {
        if self.ops.len() != other.ops.len() {
            return false;
        }
        let mut i: usize = 0;
        while i < self.ops.len()
            invariant
                i <= self.ops.len(),
                self.ops.len() == other.ops.len(),
                forall|j: int| 0 <= j < i ==> self.ops@[j] == other.ops@[j],
            decreases self.ops.len() - i,
        {
            if self.ops[i] != other.ops[i] {
                return false;
            }
            i += 1;
        }
        proof {
            assert(self.ops@ =~= other.ops@);
        }
        true
    }
}

impl vstd::std_specs::cmp::PartialEqSpecImpl for OperationChain {
    open spec fn obeys_eq_spec() -> bool {
        true
    }

    open spec fn eq_spec(&self, other: &OperationChain) -> bool {
        self@ == other@
    }
}

impl Eq for OperationChain {}

} // verus!
