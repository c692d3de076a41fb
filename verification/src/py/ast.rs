//! The types of the Python front end.

use vstd::prelude::*;

use crate::gpu::ast::ElemSize;
use crate::utils::info::Info;
use crate::utils::name::{Name, NameView};

verus! {

/// The element size of a tensor: a fixed one, or a variable bound later.
#[derive(Debug, PartialEq, Eq)]
pub enum TensorElemSize {
    Fixed { sz: ElemSize },
    Variable { id: Name },
}

/// One dimension of the shape of a tensor: a number, or a variable bound
/// later.
#[derive(Debug, PartialEq, Eq)]
pub enum TensorShape {
    Num { n: i64 },
    Symbol { id: Name },
}

/// A type of the Python front end.
#[derive(Debug, PartialEq, Eq)]
pub enum Type {
    String,
    Tensor { sz: TensorElemSize, shape: Vec<TensorShape> },
    Void,
    Unknown,
}

/// A parameter of a Python function.
#[derive(Debug, PartialEq, Eq)]
pub struct Param {
    pub id: Name,
    pub ty: Type,
    pub i: Info,
}

pub enum SpecTensorElemSize {
    Fixed { sz: ElemSize },
    Variable { id: NameView },
}

pub enum SpecTensorShape {
    Num { n: i64 },
    Symbol { id: NameView },
}

pub enum SpecType {
    String,
    Tensor { sz: SpecTensorElemSize, shape: Seq<SpecTensorShape> },
    Void,
    Unknown,
}

pub struct SpecParam {
    pub id: NameView,
    pub ty: SpecType,
    pub i: Info,
}

impl View for TensorElemSize {
    type V = SpecTensorElemSize;

    open spec fn view(&self) -> SpecTensorElemSize {
        match self {
            TensorElemSize::Fixed { sz } => SpecTensorElemSize::Fixed { sz: *sz },
            TensorElemSize::Variable { id } => SpecTensorElemSize::Variable { id: id@ },
        }
    }
}

impl View for TensorShape {
    type V = SpecTensorShape;

    open spec fn view(&self) -> SpecTensorShape {
        match self {
            TensorShape::Num { n } => SpecTensorShape::Num { n: *n },
            TensorShape::Symbol { id } => SpecTensorShape::Symbol { id: id@ },
        }
    }
}

pub open spec fn shapes_view(s: Seq<TensorShape>) -> Seq<SpecTensorShape> {
    s.map_values(|d: TensorShape| d@)
}

impl View for Type {
    type V = SpecType;

    open spec fn view(&self) -> SpecType {
        match self {
            Type::String => SpecType::String,
            Type::Tensor { sz, shape } => SpecType::Tensor { sz: sz@, shape: shapes_view(shape@) },
            Type::Void => SpecType::Void,
            Type::Unknown => SpecType::Unknown,
        }
    }
}

impl View for Param {
    type V = SpecParam;

    open spec fn view(&self) -> SpecParam {
        SpecParam { id: self.id@, ty: self.ty@, i: self.i }
    }
}

pub open spec fn params_view(ps: Seq<Param>) -> Seq<SpecParam> {
    ps.map_values(|p: Param| p@)
}

impl Clone for TensorElemSize {
    fn clone(&self) -> (r: TensorElemSize)
        ensures
            r@ == self@,
    {
        match self {
            TensorElemSize::Fixed { sz } => TensorElemSize::Fixed { sz: *sz },
            TensorElemSize::Variable { id } => TensorElemSize::Variable { id: id.clone() },
        }
    }
}

impl Clone for TensorShape {
    fn clone(&self) -> (r: TensorShape)
        ensures
            r@ == self@,
    {
        match self {
            TensorShape::Num { n } => TensorShape::Num { n: *n },
            TensorShape::Symbol { id } => TensorShape::Symbol { id: id.clone() },
        }
    }
}

impl Clone for Type {
    fn clone(&self) -> (r: Type)
        ensures
            r@ == self@,
    {
        match self {
            Type::String => Type::String,
            Type::Tensor { sz, shape } => {
                let mut out: Vec<TensorShape> = Vec::new();
                for k in 0..shape.len()
                    invariant
                        out@.len() == k,
                        forall|j: int| 0 <= j < k ==> (#[trigger] out@[j])@ == shape@[j]@,
                {
                    out.push(shape[k].clone());
                }
                assert(shapes_view(out@) =~= shapes_view(shape@));
                Type::Tensor { sz: sz.clone(), shape: out }
            },
            Type::Void => Type::Void,
            Type::Unknown => Type::Unknown,
        }
    }
}

impl Clone for Param {
    fn clone(&self) -> (r: Param)
        ensures
            r@ == self@,
    {
        Param { id: self.id.clone(), ty: self.ty.clone(), i: self.i }
    }
}

} // verus!
