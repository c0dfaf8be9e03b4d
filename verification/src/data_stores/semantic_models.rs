//! D1 data store: the per-function semantic model.
use vstd::prelude::*;

use crate::name_map::NameMap;

verus! {

/// How a function uses a variable's memory.
#[derive(Debug, Clone, Copy, PartialEq, Eq, Structural)]
pub enum MemoryPattern {
    Read,
    Write,
    Allocate,
    Free,
}

impl DeepView for MemoryPattern {
    type V = MemoryPattern;

    open spec fn deep_view(&self) -> MemoryPattern {
        *self
    }
}

/// The indirection depth of a pointer parameter.
#[derive(Debug, Clone, Copy, PartialEq, Eq, Structural)]
pub enum PointerDepthClassification {
    SingleLevel,
    MultiLevel { depth: usize },
}

impl DeepView for PointerDepthClassification {
    type V = PointerDepthClassification;

    open spec fn deep_view(&self) -> PointerDepthClassification {
        *self
    }
}

/// A place where a variable is used: its line (from 1) and column (from 1).
#[derive(Debug, Clone, Copy, PartialEq, Eq, Structural)]
pub struct UsePoint {
    pub line: usize,
    pub column: usize,
}

impl DeepView for UsePoint {
    type V = UsePoint;

    open spec fn deep_view(&self) -> UsePoint {
        *self
    }
}

/// A union turned into an enum, with the variant a function uses if it
/// could be told locally.
#[derive(Debug)]
pub struct UnionTransform {
    pub union_name: String,
    pub enum_name: String,
    pub local_variant_resolved: Option<String>,
}

/// The value a `UnionTransform` stands for.
pub ghost struct UnionTransformModel {
    pub union_name: Seq<char>,
    pub enum_name: Seq<char>,
    pub local_variant_resolved: Option<Seq<char>>,
}

impl DeepView for UnionTransform {
    type V = UnionTransformModel;

    open spec fn deep_view(&self) -> UnionTransformModel {
        UnionTransformModel {
            union_name: self.union_name@,
            enum_name: self.enum_name@,
            local_variant_resolved: self.local_variant_resolved.deep_view(),
        }
    }
}

/// A union whose active variant a function does not determine itself.
#[derive(Debug)]
pub struct UnresolvedUnionCase {
    pub union_name: String,
    pub function_name: String,
}

/// The value an `UnresolvedUnionCase` stands for.
pub ghost struct UnresolvedUnionModel {
    pub union_name: Seq<char>,
    pub function_name: Seq<char>,
}

impl DeepView for UnresolvedUnionCase {
    type V = UnresolvedUnionModel;

    open spec fn deep_view(&self) -> UnresolvedUnionModel {
        UnresolvedUnionModel { union_name: self.union_name@, function_name: self.function_name@ }
    }
}

/// D1 data store: the per-function semantic model.
#[derive(Debug)]
pub struct SemanticModel {
    pub function_name: String,
    pub symbol_table: NameMap<String>,
    pub def_use_chains: NameMap<Vec<UsePoint>>,
    pub memory_patterns: NameMap<MemoryPattern>,
    pub pointer_depth_classifications: NameMap<PointerDepthClassification>,
    pub local_union_transforms: Vec<UnionTransform>,
    pub unresolved_union_cases: Vec<UnresolvedUnionCase>,
}

/// The value a `SemanticModel` stands for.
pub ghost struct SemanticView {
    pub function_name: Seq<char>,
    pub symbol_table: Seq<(Seq<char>, Seq<char>)>,
    pub def_use_chains: Seq<(Seq<char>, Seq<UsePoint>)>,
    pub memory_patterns: Seq<(Seq<char>, MemoryPattern)>,
    pub pointer_depth_classifications: Seq<(Seq<char>, PointerDepthClassification)>,
    pub local_union_transforms: Seq<UnionTransformModel>,
    pub unresolved_union_cases: Seq<UnresolvedUnionModel>,
}

impl DeepView for SemanticModel {
    type V = SemanticView;

    open spec fn deep_view(&self) -> SemanticView {
        SemanticView {
            function_name: self.function_name@,
            symbol_table: self.symbol_table@,
            def_use_chains: self.def_use_chains@,
            memory_patterns: self.memory_patterns@,
            pointer_depth_classifications: self.pointer_depth_classifications@,
            local_union_transforms: self.local_union_transforms.deep_view(),
            unresolved_union_cases: self.unresolved_union_cases.deep_view(),
        }
    }
}

/// A model for the function `name` with nothing recorded yet.
pub open spec fn empty_semantic_view(name: Seq<char>) -> SemanticView {
    SemanticView {
        function_name: name,
        symbol_table: seq![],
        def_use_chains: seq![],
        memory_patterns: seq![],
        pointer_depth_classifications: seq![],
        local_union_transforms: seq![],
        unresolved_union_cases: seq![],
    }
}

impl SemanticModel {
    /// An empty model for the function `function_name`.
    pub fn new(function_name: String) -> (res: Self)
        ensures
            res.deep_view() == empty_semantic_view(function_name@),
    {
        let res = SemanticModel {
            function_name,
            symbol_table: NameMap::new(),
            def_use_chains: NameMap::new(),
            memory_patterns: NameMap::new(),
            pointer_depth_classifications: NameMap::new(),
            local_union_transforms: Vec::new(),
            unresolved_union_cases: Vec::new(),
        };
        assert(res.local_union_transforms.deep_view() =~= Seq::<UnionTransformModel>::empty());
        assert(res.unresolved_union_cases.deep_view() =~= Seq::<UnresolvedUnionModel>::empty());
        res
    }
}

} // verus!
