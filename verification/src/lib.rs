//! Collections of the Cool compiler, and the decisions its code generator
//! takes when it lowers expressions and types.
pub mod arena;
pub mod defers;
pub mod eq_search;
pub mod fn_state;
pub mod generated_tys;
pub mod hash_map_ext;
pub mod id_indexed_vec;
pub mod index;
pub mod instr_semantics;
pub mod lowering;
pub mod mangle;
pub mod small_string;
pub mod small_vec_map;
pub mod small_vec_set;
pub mod text;
pub mod ty_lowering;
pub mod value;

pub use arena::Arena;
pub use hash_map_ext::HashMapExt;
pub use id_indexed_vec::{Id, IdIndexedVec, NonZeroId};
pub use index::CoolIndex;
pub use mangle::mangle_item_path;
pub use small_string::SmallString;
pub use small_vec_map::SmallVecMap;
pub use small_vec_set::SmallVecSet;
pub use ty_lowering::TyFieldMap;
