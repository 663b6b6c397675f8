//! Names, types and layouts.

use crate::mir::laws::law_interned_layouts_are_distinct;
use crate::mir::parser::state::{
    at, at_most, bump, eat, eat_gt, expect, expect_gt, fail, follows, ident, kind, lemma_grown,
    parser_state, state_wf, uint, Parser, State,
};
use crate::mir::parser::token::{Failure, Kind, ParseError, Problem, Punct};
use crate::mir::types::{
    abi_type_view, abi_types_view, storage_field_view, storage_fields_view, AbiLayout, AbiLayoutRef,
    AbiType, AbiTypeView, MemoryObjectKind, MemoryObjectLayout, MirType, SliceLocation,
    StorageField, StorageFieldView, StorageLayout, StorageLayoutRef, StorageLayoutView,
};
use crate::text::{after_prefix, concat, number_of, parse_number, strip_prefix, text_is};
use std::sync::Arc;
use vstd::prelude::*;

verus! {

broadcast use crate::mir::parser::state::group_kept;

/// How many tokens are left.
pub open spec fn left(s: State) -> nat {
    if s.pos < s.toks.len() {
        (s.toks.len() - s.pos) as nat
    } else {
        0
    }
}

/// The character of a separator between the parts of a name.
pub open spec fn separator(mark: Punct) -> Seq<char> {
    if mark == Punct::Minus {
        "-"@
    } else {
        "."@
    }
}

/// Reads the further parts of a name, each behind a separator.
pub open spec fn name_rest(s: State, name: Seq<char>, mark: Punct) -> Result<
    (Seq<char>, State),
    Failure,
>
    decreases left(s),
{
    if at(s, mark) {
        let before = s;
        let s = bump(s);
        match ident(s) {
            Err(failure) => Err(failure),
            Ok((part, s)) => {
                name_rest(s, name + separator(mark) + part, mark)
            },
        }
    } else {
        Ok((name, s))
    }
}

/// Reads a name of parts that a separator joins.
#[verifier::opaque]
pub open spec fn joined_name(s: State, mark: Punct) -> Result<(Seq<char>, State), Failure> {
    match ident(s) {
        Err(failure) => Err(failure),
        Ok((first, s)) => {
            name_rest(s, first, mark)
        },
    }
}

/// The type of a name that is no numbered type.
pub open spec fn named_type(name: Seq<char>) -> Option<MirType> {
    if name == "bool"@ {
        Some(MirType::Bool)
    } else if name == "address"@ {
        Some(MirType::Address)
    } else if name == "memptr"@ {
        Some(MirType::MemPtr)
    } else if name == "memorybytes"@ {
        Some(MirType::MemoryObject(MemoryObjectKind::Bytes))
    } else if name == "memoryarray"@ {
        Some(MirType::MemoryObject(MemoryObjectKind::DynamicArray))
    } else if name == "memoryfixedarray"@ {
        Some(MirType::MemoryObject(MemoryObjectKind::FixedArray))
    } else if name == "memorystruct"@ {
        Some(MirType::MemoryObject(MemoryObjectKind::Struct))
    } else if name == "storageptr"@ {
        Some(MirType::StoragePtr)
    } else if name == "calldataptr"@ {
        Some(MirType::CalldataPtr)
    } else if name == "memoryslice"@ {
        Some(MirType::Slice(SliceLocation::Memory))
    } else if name == "calldataslice"@ {
        Some(MirType::Slice(SliceLocation::Calldata))
    } else if name == "returndataslice"@ {
        Some(MirType::Slice(SliceLocation::Returndata))
    } else if name == "function"@ {
        Some(MirType::Function)
    } else if name == "void"@ {
        Some(MirType::Void)
    } else {
        None
    }
}

/// Reads a type.
#[verifier::opaque]
pub open spec fn type_of(s: State) -> Result<(MirType, State), Failure> {
    match ident(s) {
        Err(failure) => Err(failure),
        Ok((name, s)) => {
            match after_prefix(name, "u"@) {
                Some(rest) => match number_of(rest, u16::MAX as nat) {
                    Some(bits) => Ok((MirType::UInt(bits as u16), s)),
                    None => fail(s, Problem::InvalidUnsignedType, name),
                },
                None => match after_prefix(name, "i"@) {
                    Some(rest) => match number_of(rest, u16::MAX as nat) {
                        Some(bits) => Ok((MirType::Int(bits as u16), s)),
                        None => fail(s, Problem::InvalidSignedType, name),
                    },
                    None => match after_prefix(name, "bytes"@) {
                        Some(rest) => match number_of(rest, u8::MAX as nat) {
                            Some(bytes) => Ok((MirType::FixedBytes(bytes as u8), s)),
                            None => fail(s, Problem::InvalidBytesType, name),
                        },
                        None => match named_type(name) {
                            Some(ty) => Ok((ty, s)),
                            None => fail(s, Problem::UnknownType, name),
                        },
                    },
                },
            }
        },
    }
}

/// Where the elements of an array type are, by its name.
pub open spec fn array_location(name: Seq<char>) -> Option<SliceLocation> {
    if name == "memory_array"@ {
        Some(SliceLocation::Memory)
    } else if name == "calldata_array"@ {
        Some(SliceLocation::Calldata)
    } else if name == "returndata_array"@ {
        Some(SliceLocation::Returndata)
    } else {
        None
    }
}

/// The ABI type of a name that takes no arguments.
pub open spec fn plain_abi_type(name: Seq<char>) -> Option<AbiTypeView> {
    if name == "word"@ {
        Some(AbiTypeView::Word)
    } else if name == "memory_bytes"@ {
        Some(AbiTypeView::Bytes(SliceLocation::Memory))
    } else if name == "calldata_bytes"@ {
        Some(AbiTypeView::Bytes(SliceLocation::Calldata))
    } else if name == "returndata_bytes"@ {
        Some(AbiTypeView::Bytes(SliceLocation::Returndata))
    } else {
        None
    }
}

/// Reads an ABI type.
pub open spec fn abi_type(s: State) -> Result<(AbiTypeView, State), Failure>
    decreases left(s), 0nat,
{
    match ident(s) {
        Err(failure) => Err(failure),
        Ok((name, s)) => {
            if let Some(ty) = plain_abi_type(name) {
                Ok((ty, s))
            } else if let Some(location) = array_location(name) {
                match expect(s, Punct::Lt) {
                    Err(failure) => Err(failure),
                    Ok((_mark, s)) => {
                        match abi_type(s) {
                            Err(failure) => Err(failure),
                            Ok((element, s)) => {
                                match expect_gt(s) {
                                    Err(failure) => Err(failure),
                                    Ok((_mark, s)) => {
                                        Ok(
                                            (
                                                AbiTypeView::DynamicArray {
                                                    element: Box::new(element),
                                                    location,
                                                },
                                                s,
                                            ),
                                        )
                                    },
                                }
                            },
                        }
                    },
                }
            } else if name == "array"@ {
                match expect(s, Punct::Lt) {
                    Err(failure) => Err(failure),
                    Ok((_mark, s)) => {
                        match uint(s) {
                            Err(failure) => Err(failure),
                            Ok((value, s)) => {
                                match at_most(s, value, u64::MAX as nat, Problem::AbiArrayLength) {
                                    Err(failure) => Err(failure),
                                    Ok((len, s)) => {
                                        match expect(s, Punct::Comma) {
                                            Err(failure) => Err(failure),
                                            Ok((_mark, s)) => {
                                                match abi_type(s) {
                                                    Err(failure) => Err(failure),
                                                    Ok((element, s)) => {
                                                        match expect_gt(s) {
                                                            Err(failure) => Err(failure),
                                                            Ok((_mark, s)) => {
                                                                Ok(
                                                                    (
                                                                        AbiTypeView::FixedArray {
                                                                            element: Box::new(
                                                                                element,
                                                                            ),
                                                                            len: len as u64,
                                                                        },
                                                                        s,
                                                                    ),
                                                                )
                                                            },
                                                        }
                                                    },
                                                }
                                            },
                                        }
                                    },
                                }
                            },
                        }
                    },
                }
            } else if name == "tuple"@ {
                match expect(s, Punct::Lt) {
                    Err(failure) => Err(failure),
                    Ok((_mark, s)) => {
                        match eat_gt(s) {
                            Some(s) => Ok((AbiTypeView::Tuple(Seq::empty()), s)),
                            None => abi_fields(s, Seq::empty()),
                        }
                    },
                }
            } else {
                fail(s, Problem::UnknownAbiType, name)
            }
        },
    }
}

/// Reads the further fields of a tuple, after those given.
pub open spec fn abi_fields(s: State, fields: Seq<AbiTypeView>) -> Result<
    (AbiTypeView, State),
    Failure,
>
    decreases left(s), 1nat,
{
    let rest = left(s);
    match abi_type(s) {
        Err(failure) => Err(failure),
        Ok((field, s)) => {
            match eat_gt(s) {
                Some(s) => Ok((AbiTypeView::Tuple(fields.push(field)), s)),
                None => {
                    match expect(s, Punct::Comma) {
                        Err(failure) => Err(failure),
                        Ok((_mark, s)) => {
                            if left(s) < rest {
                                abi_fields(s, fields.push(field))
                            } else {
                                fail(s, Problem::Expected(Punct::Comma), Seq::empty())
                            }
                        },
                    }
                },
            }
        },
    }
}

/// Reads the further types of a layout, after those given.
pub open spec fn abi_types(s: State, types: Seq<AbiTypeView>) -> Result<
    (Seq<AbiTypeView>, State),
    Failure,
>
    decreases left(s),
{
    let rest = left(s);
    match abi_type(s) {
        Err(failure) => Err(failure),
        Ok((ty, s)) => {
            if at(s, Punct::CloseBracket) {
                Ok((types.push(ty), bump(s)))
            } else {
                match expect(s, Punct::Comma) {
                    Err(failure) => Err(failure),
                    Ok((_mark, s)) => {
                        if left(s) < rest {
                            abi_types(s, types.push(ty))
                        } else {
                            fail(s, Problem::Expected(Punct::Comma), Seq::empty())
                        }
                    },
                }
            }
        },
    }
}

/// The layouts with one more, unless it is there.
pub open spec fn interned<A>(layouts: Seq<A>, layout: A) -> Seq<A> {
    if layouts.contains(layout) {
        layouts
    } else {
        layouts.push(layout)
    }
}

/// Reads an ABI layout and records it.
#[verifier::opaque]
pub open spec fn abi_layout(s: State) -> Result<(Seq<AbiTypeView>, State), Failure> {
    match expect(s, Punct::OpenBracket) {
        Err(failure) => Err(failure),
        Ok((_mark, s)) => {
            if at(s, Punct::CloseBracket) {
                let s = bump(s);
                Ok((Seq::empty(), State { abi: interned(s.abi, Seq::empty()), ..s }))
            } else {
                match abi_types(s, Seq::empty()) {
                    Err(failure) => Err(failure),
                    Ok((types, s)) => {
                        Ok((types, State { abi: interned(s.abi, types), ..s }))
                    },
                }
            }
        },
    }
}

/// Reads a storage layout and records it after the layouts it is made of.
pub open spec fn storage_layout(s: State) -> Result<(StorageLayoutView, State), Failure>
    decreases left(s), 0nat,
{
    match ident(s) {
        Err(failure) => Err(failure),
        Ok((name, s)) => {
            if name == "struct"@ {
                match expect(s, Punct::Lt) {
                    Err(failure) => Err(failure),
                    Ok((_mark, s)) => {
                        match match eat_gt(s) {
                            Some(s) => Ok((StorageLayoutView::Struct(Seq::empty()), s)),
                            None => storage_fields(s, Seq::empty()),
                        } {
                            Err(failure) => Err(failure),
                            Ok((layout, s)) => {
                                Ok((layout, State { storage: interned(s.storage, layout), ..s }))
                            },
                        }
                    },
                }
            } else if name == "array"@ {
                match expect(s, Punct::Lt) {
                    Err(failure) => Err(failure),
                    Ok((_mark, s)) => {
                        match uint(s) {
                            Err(failure) => Err(failure),
                            Ok((value, s)) => {
                                match at_most(s, value, u64::MAX as nat, Problem::StorageArrayLength) {
                                    Err(failure) => Err(failure),
                                    Ok((len, s)) => {
                                        match expect(s, Punct::Comma) {
                                            Err(failure) => Err(failure),
                                            Ok((_mark, s)) => {
                                                match storage_field(s) {
                                                    Err(failure) => Err(failure),
                                                    Ok((element, s)) => {
                                                        match expect_gt(s) {
                                                            Err(failure) => Err(failure),
                                                            Ok((_mark, s)) => {
                                                                let layout = StorageLayoutView::Array {
                                                                    element,
                                                                    len: len as u64,
                                                                };
                                                                Ok(
                                                                    (
                                                                        layout,
                                                                        State {
                                                                            storage: interned(
                                                                                s.storage,
                                                                                layout,
                                                                            ),
                                                                            ..s
                                                                        },
                                                                    ),
                                                                )
                                                            },
                                                        }
                                                    },
                                                }
                                            },
                                        }
                                    },
                                }
                            },
                        }
                    },
                }
            } else {
                fail(s, Problem::UnknownStorageLayout, name)
            }
        },
    }
}

/// Reads a component of an aggregate in storage.
pub open spec fn storage_field(s: State) -> Result<(StorageFieldView, State), Failure>
    decreases left(s), 1nat,
{
    if kind(s) == Kind::Ident("word"@) {
        Ok((StorageFieldView::Word, bump(s)))
    } else {
        match storage_layout(s) {
            Err(failure) => Err(failure),
            Ok((layout, s)) => {
                Ok((StorageFieldView::Aggregate(Box::new(layout)), s))
            },
        }
    }
}

/// Reads the further fields of a struct, after those given.
pub open spec fn storage_fields(s: State, fields: Seq<StorageFieldView>) -> Result<
    (StorageLayoutView, State),
    Failure,
>
    decreases left(s), 2nat,
{
    let rest = left(s);
    match storage_field(s) {
        Err(failure) => Err(failure),
        Ok((field, s)) => {
            match eat_gt(s) {
                Some(s) => Ok((StorageLayoutView::Struct(fields.push(field)), s)),
                None => {
                    match expect(s, Punct::Comma) {
                        Err(failure) => Err(failure),
                        Ok((_mark, s)) => {
                            if left(s) < rest {
                                storage_fields(s, fields.push(field))
                            } else {
                                fail(s, Problem::Expected(Punct::Comma), Seq::empty())
                            }
                        },
                    }
                },
            }
        },
    }
}

/// Reads a number in angle brackets, or takes the given one where there is no
/// bracket.
pub open spec fn bracketed(s: State, default: nat, problem: Problem) -> Result<
    (nat, State),
    Failure,
> {
    if at(s, Punct::Lt) {
        let s = bump(s);
        match uint(s) {
            Err(failure) => Err(failure),
            Ok((value, s)) => {
                match at_most(s, value, u64::MAX as nat, problem) {
                    Err(failure) => Err(failure),
                    Ok((small, s)) => {
                        match expect_gt(s) {
                            Err(failure) => Err(failure),
                            Ok((_mark, s)) => {
                                Ok((small, s))
                            },
                        }
                    },
                }
            },
        }
    } else {
        Ok((default, s))
    }
}

/// Reads the rest of a memory-object layout whose name has been read.
#[verifier::opaque]
pub open spec fn memory_object_layout(s: State, name: Seq<char>) -> Result<
    (MemoryObjectLayout, State),
    Failure,
> {
    if name == "memorybytes"@ {
        Ok((MemoryObjectLayout::Bytes, s))
    } else if name == "memoryarray"@ {
        match bracketed(s, 1, Problem::MemoryArrayStride) {
            Err(failure) => Err(failure),
            Ok((words, s)) => {
                Ok((MemoryObjectLayout::DynamicArray { element_words: words as u64 }, s))
            },
        }
    } else if name == "memoryfixedarray"@ {
        if at(s, Punct::Lt) {
            let s = bump(s);
            match uint(s) {
                Err(failure) => Err(failure),
                Ok((first, s)) => {
                    match at_most(s, first, u64::MAX as nat, Problem::MemoryFixedArrayLength) {
                        Err(failure) => Err(failure),
                        Ok((len, s)) => {
                            match expect(s, Punct::Comma) {
                                Err(failure) => Err(failure),
                                Ok((_mark, s)) => {
                                    match uint(s) {
                                        Err(failure) => Err(failure),
                                        Ok((second, s)) => {
                                            match at_most(s, second, u64::MAX as nat, Problem::MemoryFixedArrayStride) {
                                                Err(failure) => Err(failure),
                                                Ok((words, s)) => {
                                                    match expect_gt(s) {
                                                        Err(failure) => Err(failure),
                                                        Ok((_mark, s)) => {
                                                            Ok((
                                                                    MemoryObjectLayout::FixedArray {
                                                                        len: len as u64,
                                                                        element_words: words as u64,
                                                                    },
                                                                    s,
                                                            ))
                                                        },
                                                    }
                                                },
                                            }
                                        },
                                    }
                                },
                            }
                        },
                    }
                },
            }
        } else {
            Ok((MemoryObjectLayout::FixedArray { len: 0, element_words: 1 }, s))
        }
    } else if name == "memorystruct"@ {
        match bracketed(s, 0, Problem::MemoryStructFields) {
            Err(failure) => Err(failure),
            Ok((fields, s)) => {
                Ok((MemoryObjectLayout::Struct { fields: fields as u64 }, s))
            },
        }
    } else {
        fail(s, Problem::UnknownMemoryObjectLayout, name)
    }
}

/// `Arc::clone`: the claim is that the clone points to the same value.
#[verifier::external_body]
pub(crate) fn share<T>(item: &Arc<T>) -> (r: Arc<T>)
    ensures
        r == *item,
{
    Arc::clone(item)
}

/// The values of a list of ABI types are the values of its members.
pub proof fn lemma_abi_types_view(types: Seq<AbiType>, count: nat)
    requires
        count <= types.len(),
    ensures
        abi_types_view(types, count).len() == count,
        forall|i: int|
            0 <= i < count ==> #[trigger] abi_types_view(types, count)[i] == abi_type_view(
                types[i],
            ),
    decreases count,
{
    if count > 0 {
        lemma_abi_types_view(types, (count - 1) as nat);
    }
}

/// One more ABI type adds its value.
proof fn lemma_abi_types_push(types: Seq<AbiType>, ty: AbiType)
    ensures
        abi_types_view(types.push(ty), types.len() + 1) == abi_types_view(
            types,
            types.len(),
        ).push(abi_type_view(ty)),
{
    lemma_abi_types_view(types, types.len());
    lemma_abi_types_view(types.push(ty), types.len() + 1);
    assert(abi_types_view(types.push(ty), types.len() + 1) =~= abi_types_view(
        types,
        types.len(),
    ).push(abi_type_view(ty)));
}

/// The values of a list of storage fields are the values of its members.
pub proof fn lemma_storage_fields_view(fields: Seq<StorageField>, count: nat)
    requires
        count <= fields.len(),
    ensures
        storage_fields_view(fields, count).len() == count,
        forall|i: int|
            0 <= i < count ==> #[trigger] storage_fields_view(fields, count)[i]
                == storage_field_view(fields[i]),
    decreases count,
{
    if count > 0 {
        lemma_storage_fields_view(fields, (count - 1) as nat);
    }
}

/// One more storage field adds its value.
proof fn lemma_storage_fields_push(fields: Seq<StorageField>, field: StorageField)
    ensures
        storage_fields_view(fields.push(field), fields.len() + 1) == storage_fields_view(
            fields,
            fields.len(),
        ).push(storage_field_view(field)),
{
    lemma_storage_fields_view(fields, fields.len());
    lemma_storage_fields_view(fields.push(field), fields.len() + 1);
    assert(storage_fields_view(fields.push(field), fields.len() + 1) =~= storage_fields_view(
        fields,
        fields.len(),
    ).push(storage_field_view(field)));
}

/// Whether two ABI types have the same structure.
pub fn same_abi_type(a: &AbiType, b: &AbiType) -> (r: bool)
    ensures
        r == (a@ == b@),
    decreases a, 0nat,
{
    match (a, b) {
        (AbiType::Word, AbiType::Word) => true,
        (AbiType::Bytes(x), AbiType::Bytes(y)) => *x == *y,
        (
            AbiType::DynamicArray { element: x, location: p },
            AbiType::DynamicArray { element: y, location: q },
        ) => *p == *q && same_abi_type(x, y),
        (
            AbiType::FixedArray { element: x, len: p },
            AbiType::FixedArray { element: y, len: q },
        ) => *p == *q && same_abi_type(x, y),
        (AbiType::Tuple(x), AbiType::Tuple(y)) => same_abi_types(x, y),
        _ => false,
    }
}

/// Whether two lists of ABI types have the same structure.
pub fn same_abi_types(a: &Vec<AbiType>, b: &Vec<AbiType>) -> (r: bool)
    ensures
        r == (abi_types_view(a@, a@.len()) == abi_types_view(b@, b@.len())),
    decreases a,
{
    proof {
        lemma_abi_types_view(a@, a@.len());
        lemma_abi_types_view(b@, b@.len());
    }
    if a.len() != b.len() {
        return false;
    }
    let mut i: usize = 0;
    while i < a.len()
        invariant
            i <= a@.len(),
            a@.len() == b@.len(),
            abi_types_view(a@, a@.len()).len() == a@.len(),
            abi_types_view(b@, b@.len()).len() == b@.len(),
            forall|k: int|
                0 <= k < a@.len() ==> #[trigger] abi_types_view(a@, a@.len())[k] == abi_type_view(
                    a@[k],
                ),
            forall|k: int|
                0 <= k < b@.len() ==> #[trigger] abi_types_view(b@, b@.len())[k] == abi_type_view(
                    b@[k],
                ),
            forall|k: int|
                0 <= k < i ==> abi_types_view(a@, a@.len())[k] == abi_types_view(b@, b@.len())[k],
        decreases a@.len() - i,
    {
        if !same_abi_type(&a[i], &b[i]) {
            assert(abi_types_view(a@, a@.len())[i as int] != abi_types_view(
                b@,
                b@.len(),
            )[i as int]);
            return false;
        }
        assert(abi_types_view(a@, a@.len())[i as int] == abi_types_view(b@, b@.len())[i as int]);
        i = i + 1;
    }
    assert(abi_types_view(a@, a@.len()) =~= abi_types_view(b@, b@.len()));
    true
}

/// Whether two storage fields have the same structure.
pub fn same_storage_field(a: &StorageField, b: &StorageField) -> (r: bool)
    ensures
        r == (a@ == b@),
    decreases a, 0nat,
{
    match (a, b) {
        (StorageField::Word, StorageField::Word) => true,
        (StorageField::Aggregate(x), StorageField::Aggregate(y)) => same_storage_layout(x, y),
        _ => false,
    }
}

/// Whether two storage layouts have the same structure.
pub fn same_storage_layout(a: &StorageLayout, b: &StorageLayout) -> (r: bool)
    ensures
        r == (a@ == b@),
    decreases a, 0nat,
{
    match (a, b) {
        (
            StorageLayout::Array { element: x, len: p },
            StorageLayout::Array { element: y, len: q },
        ) => *p == *q && same_storage_field(x, y),
        (StorageLayout::Struct(x), StorageLayout::Struct(y)) => {
            proof {
                lemma_storage_fields_view(x@, x@.len());
                lemma_storage_fields_view(y@, y@.len());
            }
            if x.len() != y.len() {
                return false;
            }
            let mut i: usize = 0;
            while i < x.len()
                invariant
                    i <= x@.len(),
                    x@.len() == y@.len(),
                    a is Struct,
                    b is Struct,
                    a->Struct_0 == *x,
                    b->Struct_0 == *y,
                    storage_fields_view(x@, x@.len()).len() == x@.len(),
                    storage_fields_view(y@, y@.len()).len() == y@.len(),
                    forall|k: int|
                        0 <= k < x@.len() ==> #[trigger] storage_fields_view(x@, x@.len())[k]
                            == storage_field_view(x@[k]),
                    forall|k: int|
                        0 <= k < y@.len() ==> #[trigger] storage_fields_view(y@, y@.len())[k]
                            == storage_field_view(y@[k]),
                    forall|k: int|
                        0 <= k < i ==> storage_fields_view(x@, x@.len())[k] == storage_fields_view(
                            y@,
                            y@.len(),
                        )[k],
                decreases x@.len() - i,
            {
                if !same_storage_field(&x[i], &y[i]) {
                    assert(storage_fields_view(x@, x@.len())[i as int] != storage_fields_view(
                        y@,
                        y@.len(),
                    )[i as int]);
                    return false;
                }
                assert(storage_fields_view(x@, x@.len())[i as int] == storage_fields_view(
                    y@,
                    y@.len(),
                )[i as int]);
                i = i + 1;
            }
            assert(storage_fields_view(x@, x@.len()) =~= storage_fields_view(y@, y@.len()));
            true
        },
        _ => false,
    }
}

impl<'a> Parser<'a> {
    /// Reads the further parts of a name, each behind a separator.
    fn parse_name_rest(&mut self, first: &String, mark: Punct, separating: &str) -> (r: Result<
        String,
        ParseError,
    >)
        requires
            old(self).wf(),
            separating@ == separator(mark),
        ensures
            match name_rest(old(self)@, first@, mark) {
                Ok((name, s)) => r matches Ok(found) && found@ == name && final(self)@ == s,
                Err(failure) => r matches Err(e) && e@ == failure,
            },
            final(self).wf(),
            follows(final(self)@, old(self)@),
            final(self)@.b == old(self)@.b,
            final(self)@.args == old(self)@.args,
    {
        let mut name: String = first.clone();
        while self.eat(mark)
            invariant
                self.wf(),
                follows(self@, old(self)@),
                self@.b == old(self)@.b,
                self@.args == old(self)@.args,
                separating@ == separator(mark),
                name_rest(self@, name@, mark) == name_rest(old(self)@, first@, mark),
            decreases left(self@),
        {
            let part = self.parse_ident()?;
            let joint = concat(name.as_str(), separating);
            name = concat(joint.as_str(), part.as_str());
        }
        Ok(name)
    }

    /// Reads a name of parts that a separator joins.
    fn parse_joined_name(&mut self, mark: Punct, separating: &str) -> (r: Result<
        String,
        ParseError,
    >)
        requires
            old(self).wf(),
            separating@ == separator(mark),
        ensures
            match joined_name(old(self)@, mark) {
                Ok((name, s)) => r matches Ok(found) && found@ == name && final(self)@ == s,
                Err(failure) => r matches Err(e) && e@ == failure,
            },
            final(self).wf(),
            follows(final(self)@, old(self)@),
            final(self)@.b == old(self)@.b,
            final(self)@.args == old(self)@.args,
            r is Ok ==> final(self)@.pos > old(self)@.pos,
    {
        proof {
            reveal(joined_name);
        }
        let first = self.parse_ident()?;
        self.parse_name_rest(first, mark, separating)
    }

    /// Parses a phase name such as `evm-shaped`. Unlike an identifier, a phase
    /// name may contain internal hyphens.
    pub fn parse_phase_name(&mut self) -> (r: Result<String, ParseError>)
        requires
            old(self).wf(),
        ensures
            match joined_name(old(self)@, Punct::Minus) {
                Ok((name, s)) => r matches Ok(found) && found@ == name && final(self)@ == s,
                Err(failure) => r matches Err(e) && e@ == failure,
            },
            final(self).wf(),
            follows(final(self)@, old(self)@),
            final(self)@.b == old(self)@.b,
            final(self)@.args == old(self)@.args,
            r is Ok ==> final(self)@.pos > old(self)@.pos,
    {
        self.parse_joined_name(Punct::Minus, "-")
    }

    /// Parses a function name: an identifier, optionally with `.`-joined
    /// segments (`f.body`), as minted by the ABI lowering.
    pub fn parse_function_name(&mut self) -> (r: Result<String, ParseError>)
        requires
            old(self).wf(),
        ensures
            match joined_name(old(self)@, Punct::Dot) {
                Ok((name, s)) => r matches Ok(found) && found@ == name && final(self)@ == s,
                Err(failure) => r matches Err(e) && e@ == failure,
            },
            final(self).wf(),
            follows(final(self)@, old(self)@),
            final(self)@.b == old(self)@.b,
            final(self)@.args == old(self)@.args,
            r is Ok ==> final(self)@.pos > old(self)@.pos,
    {
        self.parse_joined_name(Punct::Dot, ".")
    }

    /// Parses a type.
    pub fn parse_type(&mut self) -> (r: Result<MirType, ParseError>)
        requires
            old(self).wf(),
        ensures
            match type_of(old(self)@) {
                Ok((ty, s)) => r == Ok::<MirType, ParseError>(ty) && final(self)@ == s,
                Err(failure) => r matches Err(e) && e@ == failure,
            },
            final(self).wf(),
            follows(final(self)@, old(self)@),
            final(self)@.b == old(self)@.b,
            final(self)@.args == old(self)@.args,
            r is Ok ==> final(self)@.pos > old(self)@.pos,
    {
        proof {
            reveal(type_of);
        }
        let id = self.parse_ident()?;
        let name = id.as_str();
        if let Some(rest) = strip_prefix(name, "u") {
            return match parse_number(rest.as_str(), u16::MAX as u64) {
                Some(bits) => Ok(MirType::UInt(bits as u16)),
                None => Err(self.error(Problem::InvalidUnsignedType, id.clone())),
            };
        }
        if let Some(rest) = strip_prefix(name, "i") {
            return match parse_number(rest.as_str(), u16::MAX as u64) {
                Some(bits) => Ok(MirType::Int(bits as u16)),
                None => Err(self.error(Problem::InvalidSignedType, id.clone())),
            };
        }
        if let Some(rest) = strip_prefix(name, "bytes") {
            return match parse_number(rest.as_str(), u8::MAX as u64) {
                Some(bytes) => Ok(MirType::FixedBytes(bytes as u8)),
                None => Err(self.error(Problem::InvalidBytesType, id.clone())),
            };
        }
        let ty = if text_is(name, "bool") {
            MirType::Bool
        } else if text_is(name, "address") {
            MirType::Address
        } else if text_is(name, "memptr") {
            MirType::MemPtr
        } else if text_is(name, "memorybytes") {
            MirType::MemoryObject(MemoryObjectKind::Bytes)
        } else if text_is(name, "memoryarray") {
            MirType::MemoryObject(MemoryObjectKind::DynamicArray)
        } else if text_is(name, "memoryfixedarray") {
            MirType::MemoryObject(MemoryObjectKind::FixedArray)
        } else if text_is(name, "memorystruct") {
            MirType::MemoryObject(MemoryObjectKind::Struct)
        } else if text_is(name, "storageptr") {
            MirType::StoragePtr
        } else if text_is(name, "calldataptr") {
            MirType::CalldataPtr
        } else if text_is(name, "memoryslice") {
            MirType::Slice(SliceLocation::Memory)
        } else if text_is(name, "calldataslice") {
            MirType::Slice(SliceLocation::Calldata)
        } else if text_is(name, "returndataslice") {
            MirType::Slice(SliceLocation::Returndata)
        } else if text_is(name, "function") {
            MirType::Function
        } else if text_is(name, "void") {
            MirType::Void
        } else {
            return Err(self.error(Problem::UnknownType, id.clone()));
        };
        Ok(ty)
    }

    /// The recorded layout of the given structure, recorded now if it was not.
    fn intern_abi_layout(&mut self, types: Vec<AbiType>) -> (r: AbiLayoutRef)
        requires
            old(self).wf(),
        ensures
            r@ == abi_types_view(types@, types@.len()),
            final(self)@ == (State { abi: interned(old(self)@.abi, r@), ..old(self)@ }),
            final(self).wf(),
            follows(final(self)@, old(self)@),
    {
        proof {
            reveal(parser_state);
        }
        let layout = AbiLayout { types };
        let mut i: usize = 0;
        while i < self.abi_layouts.len()
            invariant
                i <= self.abi_layouts@.len(),
                *self == *old(self),
                old(self).wf(),
                layout.types == types,
                forall|k: int| 0 <= k < i ==> (#[trigger] self.abi_layouts@[k])@ != layout@,
            decreases self.abi_layouts@.len() - i,
        {
            proof {
                reveal(parser_state);
            }
            if same_abi_types(&self.abi_layouts[i].types, &layout.types) {
                proof {
                    assert(self@.abi[i as int] == layout@);
                    assert(self@.abi.contains(layout@));
                }
                return share(&self.abi_layouts[i]);
            }
            i = i + 1;
        }
        let ghost before = self@;
        proof {
            assert(!before.abi.contains(layout@)) by {
                if before.abi.contains(layout@) {
                    let k = choose|k: int| 0 <= k < before.abi.len() && before.abi[k] == layout@;
                    assert(self.abi_layouts@[k]@ == layout@);
                }
            }
        }
        let layout = Arc::new(layout);
        self.abi_layouts.push(share(&layout));
        proof {
            assert(self@.abi =~= before.abi.push(layout@));
            assert(self@ =~= (State { abi: interned(before.abi, layout@), ..before }));
            reveal(state_wf);
            law_interned_layouts_are_distinct(before.abi, layout@);
            lemma_grown(before, self@);
        }
        layout
    }

    /// Parses an ABI layout: `[type, type, ...]`. Structurally identical
    /// layouts are interned so repeated encodes share one allocation.
    pub fn parse_abi_layout(&mut self) -> (r: Result<AbiLayoutRef, ParseError>)
        requires
            old(self).wf(),
        ensures
            match abi_layout(old(self)@) {
                Ok((layout, s)) => r matches Ok(found) && found@ == layout && final(self)@ == s,
                Err(failure) => r matches Err(e) && e@ == failure,
            },
            final(self).wf(),
            follows(final(self)@, old(self)@),
            final(self)@.b == old(self)@.b,
            r is Ok ==> final(self)@.pos > old(self)@.pos,
    {
        proof {
            reveal(abi_layout);
        }
        self.expect(Punct::OpenBracket)?;
        let types: Vec<AbiType> = if self.eat(Punct::CloseBracket) {
            Vec::new()
        } else {
            self.parse_abi_types()?
        };
        assert(abi_types_view(Seq::empty(), 0) =~= Seq::empty());
        Ok(self.intern_abi_layout(types))
    }

    /// Parses the types of an ABI layout and the bracket that closes it.
    fn parse_abi_types(&mut self) -> (r: Result<Vec<AbiType>, ParseError>)
        requires
            old(self).wf(),
        ensures
            match abi_types(old(self)@, Seq::empty()) {
                Ok((types, s)) => r matches Ok(found) && abi_types_view(found@, found@.len())
                    == types && final(self)@ == s,
                Err(failure) => r matches Err(e) && e@ == failure,
            },
            final(self).wf(),
            follows(final(self)@, old(self)@),
            final(self)@.b == old(self)@.b,
    {
        let mut types: Vec<AbiType> = Vec::new();
        assert(abi_types_view(types@, 0) =~= Seq::empty());
        loop
            invariant
                self.wf(),
                follows(self@, old(self)@),
                self@.b == old(self)@.b,
                abi_types(self@, abi_types_view(types@, types@.len())) == abi_types(
                    old(self)@,
                    Seq::empty(),
                ),
            decreases left(self@),
        {
            let ty = self.parse_abi_type()?;
            proof {
                lemma_abi_types_push(types@, ty);
            }
            types.push(ty);
            if self.eat(Punct::CloseBracket) {
                return Ok(types);
            }
            self.expect(Punct::Comma)?;
        }
    }

    /// Parses an ABI type.
    #[verifier::rlimit(40)]
    pub fn parse_abi_type(&mut self) -> (r: Result<AbiType, ParseError>)
        requires
            old(self).wf(),
        ensures
            match abi_type(old(self)@) {
                Ok((ty, s)) => r matches Ok(found) && found@ == ty && final(self)@ == s,
                Err(failure) => r matches Err(e) && e@ == failure,
            },
            final(self).wf(),
            follows(final(self)@, old(self)@),
            final(self)@.b == old(self)@.b,
            r is Ok ==> final(self)@.pos > old(self)@.pos,
        decreases left(old(self)@), 0nat,
    {
        let id = self.parse_ident()?;
        let name = id.as_str();
        if text_is(name, "word") {
            return Ok(AbiType::Word);
        }
        if text_is(name, "memory_bytes") {
            return Ok(AbiType::Bytes(SliceLocation::Memory));
        }
        if text_is(name, "calldata_bytes") {
            return Ok(AbiType::Bytes(SliceLocation::Calldata));
        }
        if text_is(name, "returndata_bytes") {
            return Ok(AbiType::Bytes(SliceLocation::Returndata));
        }
        let location: Option<SliceLocation> = if text_is(name, "memory_array") {
            Some(SliceLocation::Memory)
        } else if text_is(name, "calldata_array") {
            Some(SliceLocation::Calldata)
        } else if text_is(name, "returndata_array") {
            Some(SliceLocation::Returndata)
        } else {
            None
        };
        assert(location == array_location(name@));
        assert(plain_abi_type(name@) is None);
        if let Some(location) = location {
            self.expect(Punct::Lt)?;
            let element = Box::new(self.parse_abi_type()?);
            self.expect_gt()?;
            return Ok(AbiType::DynamicArray { element, location });
        }
        if text_is(name, "array") {
            self.expect(Punct::Lt)?;
            let value = self.parse_uint()?;
            let len = self.at_most(value, u64::MAX, Problem::AbiArrayLength)?;
            self.expect(Punct::Comma)?;
            let element = Box::new(self.parse_abi_type()?);
            self.expect_gt()?;
            return Ok(AbiType::FixedArray { element, len });
        }
        if text_is(name, "tuple") {
            self.expect(Punct::Lt)?;
            if self.eat_gt() {
                assert(abi_types_view(Seq::empty(), 0) =~= Seq::empty());
                return Ok(AbiType::Tuple(Vec::new()));
            }
            return Ok(AbiType::Tuple(self.parse_abi_fields()?));
        }
        Err(self.error(Problem::UnknownAbiType, id.clone()))
    }

    /// Parses the fields of a tuple and the `>` that closes it.
    fn parse_abi_fields(&mut self) -> (r: Result<Vec<AbiType>, ParseError>)
        requires
            old(self).wf(),
        ensures
            match abi_fields(old(self)@, Seq::empty()) {
                Ok((ty, s)) => r matches Ok(found) && ty == AbiTypeView::Tuple(
                    abi_types_view(found@, found@.len()),
                ) && final(self)@ == s,
                Err(failure) => r matches Err(e) && e@ == failure,
            },
            final(self).wf(),
            follows(final(self)@, old(self)@),
            final(self)@.b == old(self)@.b,
        decreases left(old(self)@), 1nat,
    {
        let mut fields: Vec<AbiType> = Vec::new();
        assert(abi_types_view(fields@, 0) =~= Seq::empty());
        loop
            invariant
                self.wf(),
                follows(self@, old(self)@),
                self@.b == old(self)@.b,
                abi_fields(self@, abi_types_view(fields@, fields@.len())) == abi_fields(
                    old(self)@,
                    Seq::empty(),
                ),
            decreases left(self@),
        {
            let field = self.parse_abi_type()?;
            proof {
                lemma_abi_types_push(fields@, field);
            }
            fields.push(field);
            if self.eat_gt() {
                return Ok(fields);
            }
            self.expect(Punct::Comma)?;
        }
    }

    /// The recorded layout of the given structure, recorded now if it was not.
    fn intern_storage_layout(&mut self, layout: StorageLayout) -> (r: StorageLayoutRef)
        requires
            old(self).wf(),
        ensures
            r@ == layout@,
            final(self)@ == (State { storage: interned(old(self)@.storage, r@), ..old(self)@ }),
            final(self).wf(),
            follows(final(self)@, old(self)@),
    {
        proof {
            reveal(parser_state);
        }
        let mut i: usize = 0;
        while i < self.storage_layouts.len()
            invariant
                i <= self.storage_layouts@.len(),
                *self == *old(self),
                old(self).wf(),
                forall|k: int| 0 <= k < i ==> (#[trigger] self.storage_layouts@[k])@ != layout@,
            decreases self.storage_layouts@.len() - i,
        {
            proof {
                reveal(parser_state);
            }
            if same_storage_layout(&self.storage_layouts[i], &layout) {
                proof {
                    assert(self@.storage[i as int] == layout@);
                    assert(self@.storage.contains(layout@));
                }
                return share(&self.storage_layouts[i]);
            }
            i = i + 1;
        }
        let ghost before = self@;
        proof {
            assert(!before.storage.contains(layout@)) by {
                if before.storage.contains(layout@) {
                    let k = choose|k: int|
                        0 <= k < before.storage.len() && before.storage[k] == layout@;
                    assert(self.storage_layouts@[k]@ == layout@);
                }
            }
        }
        let layout = Arc::new(layout);
        self.storage_layouts.push(share(&layout));
        proof {
            assert(self@.storage =~= before.storage.push(layout@));
            assert(self@ =~= (State { storage: interned(before.storage, layout@), ..before }));
            reveal(state_wf);
            law_interned_layouts_are_distinct(before.storage, layout@);
            lemma_grown(before, self@);
        }
        layout
    }

    /// Parses a storage layout: `struct<field, ...>` or `array<len, field>`.
    /// Structurally identical layouts are interned.
    pub fn parse_storage_layout(&mut self) -> (r: Result<StorageLayoutRef, ParseError>)
        requires
            old(self).wf(),
        ensures
            match storage_layout(old(self)@) {
                Ok((layout, s)) => r matches Ok(found) && found@ == layout && final(self)@ == s,
                Err(failure) => r matches Err(e) && e@ == failure,
            },
            final(self).wf(),
            follows(final(self)@, old(self)@),
            final(self)@.b == old(self)@.b,
            r is Ok ==> final(self)@.pos > old(self)@.pos,
        decreases left(old(self)@), 0nat,
    {
        let id = self.parse_ident()?;
        let name = id.as_str();
        let layout = if text_is(name, "struct") {
            self.expect(Punct::Lt)?;
            if self.eat_gt() {
                assert(storage_fields_view(Seq::empty(), 0) =~= Seq::empty());
                StorageLayout::Struct(Vec::new())
            } else {
                StorageLayout::Struct(self.parse_storage_fields()?)
            }
        } else if text_is(name, "array") {
            self.expect(Punct::Lt)?;
            let value = self.parse_uint()?;
            let len = self.at_most(value, u64::MAX, Problem::StorageArrayLength)?;
            self.expect(Punct::Comma)?;
            let element = self.parse_storage_field()?;
            self.expect_gt()?;
            StorageLayout::Array { element, len }
        } else {
            return Err(self.error(Problem::UnknownStorageLayout, id.clone()));
        };
        Ok(self.intern_storage_layout(layout))
    }

    /// Parses the fields of a struct and the `>` that closes it.
    fn parse_storage_fields(&mut self) -> (r: Result<Vec<StorageField>, ParseError>)
        requires
            old(self).wf(),
        ensures
            match storage_fields(old(self)@, Seq::empty()) {
                Ok((layout, s)) => r matches Ok(found) && layout == StorageLayoutView::Struct(
                    storage_fields_view(found@, found@.len()),
                ) && final(self)@ == s,
                Err(failure) => r matches Err(e) && e@ == failure,
            },
            final(self).wf(),
            follows(final(self)@, old(self)@),
            final(self)@.b == old(self)@.b,
        decreases left(old(self)@), 2nat,
    {
        let mut fields: Vec<StorageField> = Vec::new();
        assert(storage_fields_view(fields@, 0) =~= Seq::empty());
        loop
            invariant
                self.wf(),
                follows(self@, old(self)@),
                self@.b == old(self)@.b,
                storage_fields(self@, storage_fields_view(fields@, fields@.len()))
                    == storage_fields(old(self)@, Seq::empty()),
            decreases left(self@),
        {
            let field = self.parse_storage_field()?;
            proof {
                lemma_storage_fields_push(fields@, field);
            }
            fields.push(field);
            if self.eat_gt() {
                return Ok(fields);
            }
            self.expect(Punct::Comma)?;
        }
    }

    /// Parses a component of an aggregate in storage.
    pub fn parse_storage_field(&mut self) -> (r: Result<StorageField, ParseError>)
        requires
            old(self).wf(),
        ensures
            match storage_field(old(self)@) {
                Ok((field, s)) => r matches Ok(found) && found@ == field && final(self)@ == s,
                Err(failure) => r matches Err(e) && e@ == failure,
            },
            final(self).wf(),
            follows(final(self)@, old(self)@),
            final(self)@.b == old(self)@.b,
            r is Ok ==> final(self)@.pos > old(self)@.pos,
        decreases left(old(self)@), 1nat,
    {
        if self.eat_keyword("word") {
            return Ok(StorageField::Word);
        }
        Ok(StorageField::Aggregate(self.parse_storage_layout()?))
    }

    /// Reads a number in angle brackets, or takes the given one where there is
    /// no bracket.
    fn parse_bracketed(&mut self, default: u64, problem: Problem) -> (r: Result<u64, ParseError>)
        requires
            old(self).wf(),
        ensures
            match bracketed(old(self)@, default as nat, problem) {
                Ok((value, s)) => r == Ok::<u64, ParseError>(value as u64) && value <= u64::MAX
                    && final(self)@ == s,
                Err(failure) => r matches Err(e) && e@ == failure,
            },
            final(self).wf(),
            follows(final(self)@, old(self)@),
            final(self)@.b == old(self)@.b,
    {
        if self.eat(Punct::Lt) {
            let value = self.parse_uint()?;
            let small = self.at_most(value, u64::MAX, problem)?;
            self.expect_gt()?;
            Ok(small)
        } else {
            Ok(default)
        }
    }

    /// Parses a memory-object layout whose kind identifier `name` has already
    /// been consumed, with optional `<...>` layout arguments.
    pub fn parse_memory_object_layout(&mut self, id: &String) -> (r: Result<
        MemoryObjectLayout,
        ParseError,
    >)
        requires
            old(self).wf(),
        ensures
            match memory_object_layout(old(self)@, id@) {
                Ok((layout, s)) => r == Ok::<MemoryObjectLayout, ParseError>(layout)
                    && final(self)@ == s,
                Err(failure) => r matches Err(e) && e@ == failure,
            },
            final(self).wf(),
            follows(final(self)@, old(self)@),
            final(self)@.b == old(self)@.b,
    {
        proof {
            reveal(memory_object_layout);
        }
        let name = id.as_str();
        if text_is(name, "memorybytes") {
            Ok(MemoryObjectLayout::Bytes)
        } else if text_is(name, "memoryarray") {
            let element_words = self.parse_bracketed(1, Problem::MemoryArrayStride)?;
            Ok(MemoryObjectLayout::DynamicArray { element_words })
        } else if text_is(name, "memoryfixedarray") {
            if self.eat(Punct::Lt) {
                let first = self.parse_uint()?;
                let len = self.at_most(first, u64::MAX, Problem::MemoryFixedArrayLength)?;
                self.expect(Punct::Comma)?;
                let second = self.parse_uint()?;
                let element_words = self.at_most(
                    second,
                    u64::MAX,
                    Problem::MemoryFixedArrayStride,
                )?;
                self.expect_gt()?;
                Ok(MemoryObjectLayout::FixedArray { len, element_words })
            } else {
                Ok(MemoryObjectLayout::FixedArray { len: 0, element_words: 1 })
            }
        } else if text_is(name, "memorystruct") {
            let fields = self.parse_bracketed(0, Problem::MemoryStructFields)?;
            Ok(MemoryObjectLayout::Struct { fields })
        } else {
            Err(self.error(Problem::UnknownMemoryObjectLayout, id.clone()))
        }
    }
}

} // verus!
