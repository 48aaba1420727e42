//! Kinds of indices and distance metrics, and the numbers that name them in C.

use vstd::prelude::*;

verus! {

/// Distance metric of a vector index or query.
#[derive(Clone, Copy, Debug, PartialEq, Eq, Structural)]
pub enum LanceMetricType {
    L2,
    Cosine,
    Dot,
    Hamming,
}

impl LanceMetricType {
    /// The number under which C names this metric.
    pub open spec fn raw(self) -> int {
        match self {
            LanceMetricType::L2 => 0,
            LanceMetricType::Cosine => 1,
            LanceMetricType::Dot => 2,
            LanceMetricType::Hamming => 3,
        }
    }

    /// The metric that C names by a number.
    pub fn from_raw(raw: i32) -> (metric: Option<LanceMetricType>)
        ensures
            match metric {
                Some(metric) => metric.raw() == raw,
                None => !(0 <= raw <= 3),
            },
    {
        if raw == 0 {
            Some(LanceMetricType::L2)
        } else if raw == 1 {
            Some(LanceMetricType::Cosine)
        } else if raw == 2 {
            Some(LanceMetricType::Dot)
        } else if raw == 3 {
            Some(LanceMetricType::Hamming)
        } else {
            None
        }
    }

    /// The number under which C names this metric.
    pub fn to_raw(self) -> (raw: i32)
        ensures
            raw == self.raw(),
    {
        match self {
            LanceMetricType::L2 => 0,
            LanceMetricType::Cosine => 1,
            LanceMetricType::Dot => 2,
            LanceMetricType::Hamming => 3,
        }
    }
}

/// Vector index type.
#[derive(Clone, Copy, Debug, PartialEq, Eq, Structural)]
pub enum LanceVectorIndexType {
    IvfFlat,
    IvfSq,
    IvfPq,
    IvfHnswSq,
    IvfHnswPq,
    IvfHnswFlat,
}

impl LanceVectorIndexType {
    /// The number under which C names this type.
    pub open spec fn raw(self) -> int {
        match self {
            LanceVectorIndexType::IvfFlat => 101,
            LanceVectorIndexType::IvfSq => 102,
            LanceVectorIndexType::IvfPq => 103,
            LanceVectorIndexType::IvfHnswSq => 104,
            LanceVectorIndexType::IvfHnswPq => 105,
            LanceVectorIndexType::IvfHnswFlat => 106,
        }
    }

    /// The name of this type.
    pub open spec fn name(self) -> Seq<char> {
        match self {
            LanceVectorIndexType::IvfFlat => "IvfFlat"@,
            LanceVectorIndexType::IvfSq => "IvfSq"@,
            LanceVectorIndexType::IvfPq => "IvfPq"@,
            LanceVectorIndexType::IvfHnswSq => "IvfHnswSq"@,
            LanceVectorIndexType::IvfHnswPq => "IvfHnswPq"@,
            LanceVectorIndexType::IvfHnswFlat => "IvfHnswFlat"@,
        }
    }

    /// The name of this type.
    pub fn to_name(self) -> (name: &'static str)
        ensures
            name@ == self.name(),
    {
        match self {
            LanceVectorIndexType::IvfFlat => "IvfFlat",
            LanceVectorIndexType::IvfSq => "IvfSq",
            LanceVectorIndexType::IvfPq => "IvfPq",
            LanceVectorIndexType::IvfHnswSq => "IvfHnswSq",
            LanceVectorIndexType::IvfHnswPq => "IvfHnswPq",
            LanceVectorIndexType::IvfHnswFlat => "IvfHnswFlat",
        }
    }

    /// Whether this type holds product-quantized vectors.
    pub open spec fn quantizes_products(self) -> bool {
        self == LanceVectorIndexType::IvfPq || self == LanceVectorIndexType::IvfHnswPq
    }

    /// Whether this type holds product-quantized vectors.
    pub fn is_pq(self) -> (pq: bool)
        ensures
            pq == self.quantizes_products(),
    {
        match self {
            LanceVectorIndexType::IvfPq | LanceVectorIndexType::IvfHnswPq => true,
            _ => false,
        }
    }

    /// The type that C names by a number.
    pub fn from_c(raw: i32) -> (kind: Option<LanceVectorIndexType>)
        ensures
            match kind {
                Some(kind) => kind.raw() == raw,
                None => !(101 <= raw <= 106),
            },
    {
        if raw == 101 {
            Some(LanceVectorIndexType::IvfFlat)
        } else if raw == 102 {
            Some(LanceVectorIndexType::IvfSq)
        } else if raw == 103 {
            Some(LanceVectorIndexType::IvfPq)
        } else if raw == 104 {
            Some(LanceVectorIndexType::IvfHnswSq)
        } else if raw == 105 {
            Some(LanceVectorIndexType::IvfHnswPq)
        } else if raw == 106 {
            Some(LanceVectorIndexType::IvfHnswFlat)
        } else {
            None
        }
    }

    /// The number under which C names this type.
    pub fn to_raw(self) -> (raw: i32)
        ensures
            raw == self.raw(),
    {
        match self {
            LanceVectorIndexType::IvfFlat => 101,
            LanceVectorIndexType::IvfSq => 102,
            LanceVectorIndexType::IvfPq => 103,
            LanceVectorIndexType::IvfHnswSq => 104,
            LanceVectorIndexType::IvfHnswPq => 105,
            LanceVectorIndexType::IvfHnswFlat => 106,
        }
    }
}

/// Scalar index type.
#[derive(Clone, Copy, Debug, PartialEq, Eq, Structural)]
pub enum LanceScalarIndexType {
    BTree,
    Bitmap,
    LabelList,
    Inverted,
}

impl LanceScalarIndexType {
    /// The number under which C names this type.
    pub open spec fn raw(self) -> int {
        match self {
            LanceScalarIndexType::BTree => 1,
            LanceScalarIndexType::Bitmap => 2,
            LanceScalarIndexType::LabelList => 3,
            LanceScalarIndexType::Inverted => 4,
        }
    }

    /// The type that C names by a number.
    pub fn from_c(raw: i32) -> (kind: Option<LanceScalarIndexType>)
        ensures
            match kind {
                Some(kind) => kind.raw() == raw,
                None => !(1 <= raw <= 4),
            },
    {
        if raw == 1 {
            Some(LanceScalarIndexType::BTree)
        } else if raw == 2 {
            Some(LanceScalarIndexType::Bitmap)
        } else if raw == 3 {
            Some(LanceScalarIndexType::LabelList)
        } else if raw == 4 {
            Some(LanceScalarIndexType::Inverted)
        } else {
            None
        }
    }
}

/// Each metric and each kind of index has its own number in C, and a kind of vector
/// index its own name; just the two with product quantization quantize products.
pub proof fn law_numbers_name_the_kinds(
    metric: LanceMetricType,
    kind: LanceVectorIndexType,
    scalar: LanceScalarIndexType,
)
    ensures
        metric == LanceMetricType::L2 <==> metric.raw() == 0,
        metric == LanceMetricType::Cosine <==> metric.raw() == 1,
        metric == LanceMetricType::Dot <==> metric.raw() == 2,
        metric == LanceMetricType::Hamming <==> metric.raw() == 3,
        kind == LanceVectorIndexType::IvfFlat <==> kind.raw() == 101,
        kind == LanceVectorIndexType::IvfSq <==> kind.raw() == 102,
        kind == LanceVectorIndexType::IvfPq <==> kind.raw() == 103,
        kind == LanceVectorIndexType::IvfHnswSq <==> kind.raw() == 104,
        kind == LanceVectorIndexType::IvfHnswPq <==> kind.raw() == 105,
        kind == LanceVectorIndexType::IvfHnswFlat <==> kind.raw() == 106,
        scalar == LanceScalarIndexType::BTree <==> scalar.raw() == 1,
        scalar == LanceScalarIndexType::Bitmap <==> scalar.raw() == 2,
        scalar == LanceScalarIndexType::LabelList <==> scalar.raw() == 3,
        scalar == LanceScalarIndexType::Inverted <==> scalar.raw() == 4,
        kind.quantizes_products() <==> kind.raw() == 103 || kind.raw() == 105,
        kind.name() == match kind {
            LanceVectorIndexType::IvfFlat => "IvfFlat"@,
            LanceVectorIndexType::IvfSq => "IvfSq"@,
            LanceVectorIndexType::IvfPq => "IvfPq"@,
            LanceVectorIndexType::IvfHnswSq => "IvfHnswSq"@,
            LanceVectorIndexType::IvfHnswPq => "IvfHnswPq"@,
            LanceVectorIndexType::IvfHnswFlat => "IvfHnswFlat"@,
        },
{
}

} // verus!
