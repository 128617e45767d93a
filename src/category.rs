//! Workload categories of the benchmark programs, used to compare how
//! configurations behave on different kinds of work.

use crate::text::same_text;
use vstd::prelude::*;

verus! {

/// Kind of work a benchmark stresses.
#[derive(Debug, Clone, Copy, PartialEq, Eq, Structural)]
pub enum WorkloadType {
    /// Deep recursion
    CpuRecursive,
    /// Tight loops
    CpuIterative,
    /// Cache-sensitive memory traffic
    MemoryCacheSensitive,
    /// Random memory access
    MemoryRandomAccess,
    /// Container operations
    DataStructures,
    /// Text processing
    StringProcessing,
    /// Encoding and decoding
    Serialization,
    /// File input and output
    IoBound,
}

/// The category of a benchmark name; unknown names count as CPU-bound iterative.
pub open spec fn category_of(benchmark: Seq<char>) -> WorkloadType {
    if benchmark == "ackermann"@ || benchmark == "fibonacci"@ {
        WorkloadType::CpuRecursive
    } else if benchmark == "matrix-mult"@ {
        WorkloadType::MemoryCacheSensitive
    } else if benchmark == "quicksort"@ {
        WorkloadType::MemoryRandomAccess
    } else if benchmark == "hashmap-ops"@ || benchmark == "btreemap-ops"@ {
        WorkloadType::DataStructures
    } else if benchmark == "string-parse"@ {
        WorkloadType::StringProcessing
    } else if benchmark == "json-parse"@ {
        WorkloadType::Serialization
    } else if benchmark == "file-io"@ {
        WorkloadType::IoBound
    } else {
        WorkloadType::CpuIterative
    }
}

/// Display name of a category.
pub open spec fn category_name(w: WorkloadType) -> Seq<char> {
    match w {
        WorkloadType::CpuRecursive => "CPU-bound recursive"@,
        WorkloadType::CpuIterative => "CPU-bound iterative"@,
        WorkloadType::MemoryCacheSensitive => "Memory-bound cache-sensitive"@,
        WorkloadType::MemoryRandomAccess => "Memory-bound random access"@,
        WorkloadType::DataStructures => "Data structure operations"@,
        WorkloadType::StringProcessing => "String processing"@,
        WorkloadType::Serialization => "Serialization"@,
        WorkloadType::IoBound => "I/O-bound"@,
    }
}

impl WorkloadType {
    /// The category of the benchmark named `benchmark`.
    pub fn from_benchmark(benchmark: &str) -> (r: Self)
        ensures
            r == category_of(benchmark@),
    {
        if same_text(benchmark, "ackermann") || same_text(benchmark, "fibonacci") {
            WorkloadType::CpuRecursive
        } else if same_text(benchmark, "matrix-mult") {
            WorkloadType::MemoryCacheSensitive
        } else if same_text(benchmark, "quicksort") {
            WorkloadType::MemoryRandomAccess
        } else if same_text(benchmark, "hashmap-ops") || same_text(benchmark, "btreemap-ops") {
            WorkloadType::DataStructures
        } else if same_text(benchmark, "string-parse") {
            WorkloadType::StringProcessing
        } else if same_text(benchmark, "json-parse") {
            WorkloadType::Serialization
        } else if same_text(benchmark, "file-io") {
            WorkloadType::IoBound
        } else {
            WorkloadType::CpuIterative
        }
    }

    /// Display name of the category.
    pub fn name(&self) -> (r: &'static str)
        ensures
            r@ == category_name(*self),
    {
        match self {
            WorkloadType::CpuRecursive => "CPU-bound recursive",
            WorkloadType::CpuIterative => "CPU-bound iterative",
            WorkloadType::MemoryCacheSensitive => "Memory-bound cache-sensitive",
            WorkloadType::MemoryRandomAccess => "Memory-bound random access",
            WorkloadType::DataStructures => "Data structure operations",
            WorkloadType::StringProcessing => "String processing",
            WorkloadType::Serialization => "Serialization",
            WorkloadType::IoBound => "I/O-bound",
        }
    }
}

} // verus!
