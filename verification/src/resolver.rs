//! The symbolic resolver: a `Methodref` or `Fieldref` index is walked
//! through the pool to a (class, name, descriptor) triple and matched
//! against the closed intrinsic table.

use vstd::prelude::*;
use crate::pool::ConstantPool;
use crate::pool::ConstantPoolEntry;
use crate::text::str_eq;

verus! {

/// An intrinsic behavior the interpreter provides directly.
#[derive(Debug, Clone, Copy, PartialEq, Eq, Structural)]
pub enum ResolvedMethod {
    PrintStreamPrintln,
    PrintStreamPrint,
    PrintStreamPrintlnString,
    PrintStreamPrintlnFloat,
    PrintStreamPrintlnDouble,
    PrintStreamPrintlnBoolean,
    PrintStreamPrintlnChar,
    MathRandom,
    MathMaxInt,
    MathMinInt,
    MathMaxDouble,
    MathMinDouble,
    MathAbs,
    MathAbsDouble,
    MathPow,
    MathSqrt,
    MathFloor,
    MathCeil,
    MathRound,
    MathSin,
    MathCos,
    MathTan,
    MathLog,
    MathExp,
    StringLength,
    StringBuilderAppendString,
    StringBuilderAppendInt,
    StringBuilderAppendDouble,
    StringBuilderToString,
    StringCharAt,
    StringSubstring,
    StringIndexOf,
    StringToUpperCase,
    StringToLowerCase,
    StringTrim,
    StringEquals,
    StringConcat,
    IntegerParseInt,
    IntegerToString,
    IntegerValueOf,
    DoubleParseDouble,
    DoubleToString,
    DoubleValueOf,
    BooleanParseBoolean,
    BooleanToString,
    BooleanValueOf,
    CharacterIsDigit,
    CharacterIsLetter,
    CharacterToUpperCase,
    CharacterToLowerCase,
    Unknown,
}

/// The text of a `Utf8` entry at a 1-based index, or nothing.
pub open spec fn spec_utf8_opt(entries: Seq<ConstantPoolEntry>, index: u16) -> Option<Seq<char>> {
    if index == 0 || index - 1 >= entries.len() {
        None
    } else {
        match entries[index - 1] {
            ConstantPoolEntry::Utf8(s) => Some(s@),
            _ => None,
        }
    }
}

/// The closed intrinsic table: the triple decides the behavior.
pub open spec fn spec_intrinsic(cls: Seq<char>, name: Seq<char>, desc: Seq<char>) -> ResolvedMethod {
    if cls == "java/io/PrintStream"@ {
        if name == "println"@ {
            if desc == "(I)V"@ {
                ResolvedMethod::PrintStreamPrintln
            } else if desc == "(Ljava/lang/String;)V"@ {
                ResolvedMethod::PrintStreamPrintlnString
            } else if desc == "(Ljava/lang/Object;)V"@ {
                ResolvedMethod::PrintStreamPrintlnString
            } else if desc == "(F)V"@ {
                ResolvedMethod::PrintStreamPrintlnFloat
            } else if desc == "(D)V"@ {
                ResolvedMethod::PrintStreamPrintlnDouble
            } else if desc == "(Z)V"@ {
                ResolvedMethod::PrintStreamPrintlnBoolean
            } else if desc == "(C)V"@ {
                ResolvedMethod::PrintStreamPrintlnChar
            } else {
                ResolvedMethod::Unknown
            }
        } else if name == "print"@ && desc == "(Ljava/lang/String;)V"@ {
            ResolvedMethod::PrintStreamPrint
        } else {
            ResolvedMethod::Unknown
        }
    } else if cls == "java/lang/Math"@ {
        if name == "random"@ && desc == "()D"@ {
            ResolvedMethod::MathRandom
        } else if name == "max"@ && desc == "(II)I"@ {
            ResolvedMethod::MathMaxInt
        } else if name == "min"@ && desc == "(II)I"@ {
            ResolvedMethod::MathMinInt
        } else if name == "max"@ && desc == "(DD)D"@ {
            ResolvedMethod::MathMaxDouble
        } else if name == "min"@ && desc == "(DD)D"@ {
            ResolvedMethod::MathMinDouble
        } else if name == "abs"@ && desc == "(I)I"@ {
            ResolvedMethod::MathAbs
        } else if name == "abs"@ && desc == "(D)D"@ {
            ResolvedMethod::MathAbsDouble
        } else if name == "pow"@ && desc == "(DD)D"@ {
            ResolvedMethod::MathPow
        } else if name == "sqrt"@ && desc == "(D)D"@ {
            ResolvedMethod::MathSqrt
        } else if name == "floor"@ && desc == "(D)D"@ {
            ResolvedMethod::MathFloor
        } else if name == "ceil"@ && desc == "(D)D"@ {
            ResolvedMethod::MathCeil
        } else if name == "round"@ && desc == "(D)J"@ {
            ResolvedMethod::MathRound
        } else if name == "sin"@ && desc == "(D)D"@ {
            ResolvedMethod::MathSin
        } else if name == "cos"@ && desc == "(D)D"@ {
            ResolvedMethod::MathCos
        } else if name == "tan"@ && desc == "(D)D"@ {
            ResolvedMethod::MathTan
        } else if name == "log"@ && desc == "(D)D"@ {
            ResolvedMethod::MathLog
        } else if name == "exp"@ && desc == "(D)D"@ {
            ResolvedMethod::MathExp
        } else {
            ResolvedMethod::Unknown
        }
    } else if cls == "java/lang/String"@ {
        if name == "length"@ && desc == "()I"@ {
            ResolvedMethod::StringLength
        } else if name == "charAt"@ && desc == "(I)C"@ {
            ResolvedMethod::StringCharAt
        } else if name == "substring"@ && desc == "(II)Ljava/lang/String;"@ {
            ResolvedMethod::StringSubstring
        } else if name == "indexOf"@ && desc == "(I)I"@ {
            ResolvedMethod::StringIndexOf
        } else if name == "toUpperCase"@ && desc == "()Ljava/lang/String;"@ {
            ResolvedMethod::StringToUpperCase
        } else if name == "toLowerCase"@ && desc == "()Ljava/lang/String;"@ {
            ResolvedMethod::StringToLowerCase
        } else if name == "trim"@ && desc == "()Ljava/lang/String;"@ {
            ResolvedMethod::StringTrim
        } else if name == "equals"@ && desc == "(Ljava/lang/Object;)Z"@ {
            ResolvedMethod::StringEquals
        } else if name == "concat"@ && desc == "(Ljava/lang/String;)Ljava/lang/String;"@ {
            ResolvedMethod::StringConcat
        } else {
            ResolvedMethod::Unknown
        }
    } else if cls == "java/lang/StringBuilder"@ {
        if name == "append"@ && desc == "(Ljava/lang/String;)Ljava/lang/StringBuilder;"@ {
            ResolvedMethod::StringBuilderAppendString
        } else if name == "append"@ && desc == "(I)Ljava/lang/StringBuilder;"@ {
            ResolvedMethod::StringBuilderAppendInt
        } else if name == "append"@ && desc == "(D)Ljava/lang/StringBuilder;"@ {
            ResolvedMethod::StringBuilderAppendDouble
        } else if name == "toString"@ && desc == "()Ljava/lang/String;"@ {
            ResolvedMethod::StringBuilderToString
        } else {
            ResolvedMethod::Unknown
        }
    } else if cls == "java/lang/Integer"@ {
        if name == "parseInt"@ && desc == "(Ljava/lang/String;)I"@ {
            ResolvedMethod::IntegerParseInt
        } else if name == "toString"@ && desc == "(I)Ljava/lang/String;"@ {
            ResolvedMethod::IntegerToString
        } else if name == "valueOf"@ && desc == "(I)Ljava/lang/Integer;"@ {
            ResolvedMethod::IntegerValueOf
        } else {
            ResolvedMethod::Unknown
        }
    } else if cls == "java/lang/Double"@ {
        if name == "parseDouble"@ && desc == "(Ljava/lang/String;)D"@ {
            ResolvedMethod::DoubleParseDouble
        } else if name == "toString"@ && desc == "(D)Ljava/lang/String;"@ {
            ResolvedMethod::DoubleToString
        } else if name == "valueOf"@ && desc == "(D)Ljava/lang/Double;"@ {
            ResolvedMethod::DoubleValueOf
        } else {
            ResolvedMethod::Unknown
        }
    } else if cls == "java/lang/Boolean"@ {
        if name == "parseBoolean"@ && desc == "(Ljava/lang/String;)Z"@ {
            ResolvedMethod::BooleanParseBoolean
        } else if name == "toString"@ && desc == "(Z)Ljava/lang/String;"@ {
            ResolvedMethod::BooleanToString
        } else if name == "valueOf"@ && desc == "(Z)Ljava/lang/Boolean;"@ {
            ResolvedMethod::BooleanValueOf
        } else {
            ResolvedMethod::Unknown
        }
    } else if cls == "java/lang/Character"@ {
        if name == "isDigit"@ && desc == "(C)Z"@ {
            ResolvedMethod::CharacterIsDigit
        } else if name == "isLetter"@ && desc == "(C)Z"@ {
            ResolvedMethod::CharacterIsLetter
        } else if name == "toUpperCase"@ && desc == "(C)C"@ {
            ResolvedMethod::CharacterToUpperCase
        } else if name == "toLowerCase"@ && desc == "(C)C"@ {
            ResolvedMethod::CharacterToLowerCase
        } else {
            ResolvedMethod::Unknown
        }
    } else {
        ResolvedMethod::Unknown
    }
}

/// The (class, name, descriptor) triple a `Methodref` index denotes, or
/// nothing when the chain through the pool does not hold.
pub open spec fn spec_method_triple(entries: Seq<ConstantPoolEntry>, method_ref: u16) -> Option<
    (Seq<char>, Seq<char>, Seq<char>),
> {
    if method_ref == 0 || method_ref - 1 >= entries.len() {
        None
    } else {
        match entries[method_ref - 1] {
            ConstantPoolEntry::Methodref(class_index, name_and_type_index) => {
                match spec_class_name(entries, class_index) {
                    Some(cls) => match spec_name_and_type(entries, name_and_type_index) {
                        Some((name, desc)) => Some((cls, name, desc)),
                        None => None,
                    },
                    None => None,
                }
            },
            _ => None,
        }
    }
}

/// The class name a `Class` index denotes, or nothing.
pub open spec fn spec_class_name(entries: Seq<ConstantPoolEntry>, class_index: u16) -> Option<
    Seq<char>,
> {
    if class_index == 0 || class_index - 1 >= entries.len() {
        None
    } else {
        match entries[class_index - 1] {
            ConstantPoolEntry::Class(name_index) => spec_utf8_opt(entries, name_index),
            _ => None,
        }
    }
}

/// The name and descriptor a `NameAndType` index denotes, or nothing.
pub open spec fn spec_name_and_type(entries: Seq<ConstantPoolEntry>, nat_index: u16) -> Option<
    (Seq<char>, Seq<char>),
> {
    if nat_index == 0 || nat_index - 1 >= entries.len() {
        None
    } else {
        match entries[nat_index - 1] {
            ConstantPoolEntry::NameAndType(name_index, desc_index) => {
                match spec_utf8_opt(entries, name_index) {
                    Some(name) => match spec_utf8_opt(entries, desc_index) {
                        Some(desc) => Some((name, desc)),
                        None => None,
                    },
                    None => None,
                }
            },
            _ => None,
        }
    }
}

/// What a `Methodref` index resolves to: the intrinsic table applied to
/// its triple, or `Unknown` when the chain does not hold.
pub open spec fn spec_resolve(entries: Seq<ConstantPoolEntry>, method_ref: u16) -> ResolvedMethod {
    match spec_method_triple(entries, method_ref) {
        Some(t) => spec_intrinsic(t.0, t.1, t.2),
        None => ResolvedMethod::Unknown,
    }
}

/// The static field a `Fieldref` index denotes: `Some(is_stderr)` for
/// `System.out` and `System.err`, nothing otherwise.
pub open spec fn spec_resolve_field(entries: Seq<ConstantPoolEntry>, field_ref: u16) -> Option<
    bool,
> {
    if field_ref == 0 || field_ref - 1 >= entries.len() {
        None
    } else {
        match entries[field_ref - 1] {
            ConstantPoolEntry::Fieldref(class_index, name_and_type_index) => {
                match spec_class_name(entries, class_index) {
                    Some(cls) => {
                        if cls != "java/lang/System"@ {
                            None
                        } else {
                            match spec_field_name(entries, name_and_type_index) {
                                Some(f) => if f == "out"@ {
                                    Some(false)
                                } else if f == "err"@ {
                                    Some(true)
                                } else {
                                    None
                                },
                                None => None,
                            }
                        }
                    },
                    None => None,
                }
            },
            _ => None,
        }
    }
}

/// The field name a `NameAndType` index denotes, or nothing.
pub open spec fn spec_field_name(entries: Seq<ConstantPoolEntry>, nat_index: u16) -> Option<
    Seq<char>,
> {
    if nat_index == 0 || nat_index - 1 >= entries.len() {
        None
    } else {
        match entries[nat_index - 1] {
            ConstantPoolEntry::NameAndType(name_index, _) => spec_utf8_opt(entries, name_index),
            _ => None,
        }
    }
}

/// Fetch the text of a `Utf8` entry, or nothing.
fn utf8_opt(pool: &ConstantPool, index: u16) -> (r: Option<String>)
    ensures
        match r {
            Some(s) => spec_utf8_opt(pool.spec_entries(), index) == Some(s@),
            None => spec_utf8_opt(pool.spec_entries(), index) is None,
        },
{
    if index == 0 {
        return None;
    }
    let entries = pool.entries();
    let j = (index - 1) as usize;
    if j >= entries.len() {
        return None;
    }
    match &entries[j] {
        ConstantPoolEntry::Utf8(s) => Some(s.clone()),
        _ => None,
    }
}

/// Apply the intrinsic table to a resolved triple.
fn intrinsic_for(cls: &str, name: &str, desc: &str) -> (r: ResolvedMethod)
    ensures
        r == spec_intrinsic(cls@, name@, desc@),
{
    if str_eq(cls, "java/io/PrintStream") {
        if str_eq(name, "println") {
            if str_eq(desc, "(I)V") {
                ResolvedMethod::PrintStreamPrintln
            } else if str_eq(desc, "(Ljava/lang/String;)V") {
                ResolvedMethod::PrintStreamPrintlnString
            } else if str_eq(desc, "(Ljava/lang/Object;)V") {
                ResolvedMethod::PrintStreamPrintlnString
            } else if str_eq(desc, "(F)V") {
                ResolvedMethod::PrintStreamPrintlnFloat
            } else if str_eq(desc, "(D)V") {
                ResolvedMethod::PrintStreamPrintlnDouble
            } else if str_eq(desc, "(Z)V") {
                ResolvedMethod::PrintStreamPrintlnBoolean
            } else if str_eq(desc, "(C)V") {
                ResolvedMethod::PrintStreamPrintlnChar
            } else {
                ResolvedMethod::Unknown
            }
        } else if str_eq(name, "print") && str_eq(desc, "(Ljava/lang/String;)V") {
            ResolvedMethod::PrintStreamPrint
        } else {
            ResolvedMethod::Unknown
        }
    } else if str_eq(cls, "java/lang/Math") {
        if str_eq(name, "random") && str_eq(desc, "()D") {
            ResolvedMethod::MathRandom
        } else if str_eq(name, "max") && str_eq(desc, "(II)I") {
            ResolvedMethod::MathMaxInt
        } else if str_eq(name, "min") && str_eq(desc, "(II)I") {
            ResolvedMethod::MathMinInt
        } else if str_eq(name, "max") && str_eq(desc, "(DD)D") {
            ResolvedMethod::MathMaxDouble
        } else if str_eq(name, "min") && str_eq(desc, "(DD)D") {
            ResolvedMethod::MathMinDouble
        } else if str_eq(name, "abs") && str_eq(desc, "(I)I") {
            ResolvedMethod::MathAbs
        } else if str_eq(name, "abs") && str_eq(desc, "(D)D") {
            ResolvedMethod::MathAbsDouble
        } else if str_eq(name, "pow") && str_eq(desc, "(DD)D") {
            ResolvedMethod::MathPow
        } else if str_eq(name, "sqrt") && str_eq(desc, "(D)D") {
            ResolvedMethod::MathSqrt
        } else if str_eq(name, "floor") && str_eq(desc, "(D)D") {
            ResolvedMethod::MathFloor
        } else if str_eq(name, "ceil") && str_eq(desc, "(D)D") {
            ResolvedMethod::MathCeil
        } else if str_eq(name, "round") && str_eq(desc, "(D)J") {
            ResolvedMethod::MathRound
        } else if str_eq(name, "sin") && str_eq(desc, "(D)D") {
            ResolvedMethod::MathSin
        } else if str_eq(name, "cos") && str_eq(desc, "(D)D") {
            ResolvedMethod::MathCos
        } else if str_eq(name, "tan") && str_eq(desc, "(D)D") {
            ResolvedMethod::MathTan
        } else if str_eq(name, "log") && str_eq(desc, "(D)D") {
            ResolvedMethod::MathLog
        } else if str_eq(name, "exp") && str_eq(desc, "(D)D") {
            ResolvedMethod::MathExp
        } else {
            ResolvedMethod::Unknown
        }
    } else if str_eq(cls, "java/lang/String") {
        if str_eq(name, "length") && str_eq(desc, "()I") {
            ResolvedMethod::StringLength
        } else if str_eq(name, "charAt") && str_eq(desc, "(I)C") {
            ResolvedMethod::StringCharAt
        } else if str_eq(name, "substring") && str_eq(desc, "(II)Ljava/lang/String;") {
            ResolvedMethod::StringSubstring
        } else if str_eq(name, "indexOf") && str_eq(desc, "(I)I") {
            ResolvedMethod::StringIndexOf
        } else if str_eq(name, "toUpperCase") && str_eq(desc, "()Ljava/lang/String;") {
            ResolvedMethod::StringToUpperCase
        } else if str_eq(name, "toLowerCase") && str_eq(desc, "()Ljava/lang/String;") {
            ResolvedMethod::StringToLowerCase
        } else if str_eq(name, "trim") && str_eq(desc, "()Ljava/lang/String;") {
            ResolvedMethod::StringTrim
        } else if str_eq(name, "equals") && str_eq(desc, "(Ljava/lang/Object;)Z") {
            ResolvedMethod::StringEquals
        } else if str_eq(name, "concat") && str_eq(desc, "(Ljava/lang/String;)Ljava/lang/String;") {
            ResolvedMethod::StringConcat
        } else {
            ResolvedMethod::Unknown
        }
    } else if str_eq(cls, "java/lang/StringBuilder") {
        if str_eq(name, "append") && str_eq(desc, "(Ljava/lang/String;)Ljava/lang/StringBuilder;") {
            ResolvedMethod::StringBuilderAppendString
        } else if str_eq(name, "append") && str_eq(desc, "(I)Ljava/lang/StringBuilder;") {
            ResolvedMethod::StringBuilderAppendInt
        } else if str_eq(name, "append") && str_eq(desc, "(D)Ljava/lang/StringBuilder;") {
            ResolvedMethod::StringBuilderAppendDouble
        } else if str_eq(name, "toString") && str_eq(desc, "()Ljava/lang/String;") {
            ResolvedMethod::StringBuilderToString
        } else {
            ResolvedMethod::Unknown
        }
    } else if str_eq(cls, "java/lang/Integer") {
        if str_eq(name, "parseInt") && str_eq(desc, "(Ljava/lang/String;)I") {
            ResolvedMethod::IntegerParseInt
        } else if str_eq(name, "toString") && str_eq(desc, "(I)Ljava/lang/String;") {
            ResolvedMethod::IntegerToString
        } else if str_eq(name, "valueOf") && str_eq(desc, "(I)Ljava/lang/Integer;") {
            ResolvedMethod::IntegerValueOf
        } else {
            ResolvedMethod::Unknown
        }
    } else if str_eq(cls, "java/lang/Double") {
        if str_eq(name, "parseDouble") && str_eq(desc, "(Ljava/lang/String;)D") {
            ResolvedMethod::DoubleParseDouble
        } else if str_eq(name, "toString") && str_eq(desc, "(D)Ljava/lang/String;") {
            ResolvedMethod::DoubleToString
        } else if str_eq(name, "valueOf") && str_eq(desc, "(D)Ljava/lang/Double;") {
            ResolvedMethod::DoubleValueOf
        } else {
            ResolvedMethod::Unknown
        }
    } else if str_eq(cls, "java/lang/Boolean") {
        if str_eq(name, "parseBoolean") && str_eq(desc, "(Ljava/lang/String;)Z") {
            ResolvedMethod::BooleanParseBoolean
        } else if str_eq(name, "toString") && str_eq(desc, "(Z)Ljava/lang/String;") {
            ResolvedMethod::BooleanToString
        } else if str_eq(name, "valueOf") && str_eq(desc, "(Z)Ljava/lang/Boolean;") {
            ResolvedMethod::BooleanValueOf
        } else {
            ResolvedMethod::Unknown
        }
    } else if str_eq(cls, "java/lang/Character") {
        if str_eq(name, "isDigit") && str_eq(desc, "(C)Z") {
            ResolvedMethod::CharacterIsDigit
        } else if str_eq(name, "isLetter") && str_eq(desc, "(C)Z") {
            ResolvedMethod::CharacterIsLetter
        } else if str_eq(name, "toUpperCase") && str_eq(desc, "(C)C") {
            ResolvedMethod::CharacterToUpperCase
        } else if str_eq(name, "toLowerCase") && str_eq(desc, "(C)C") {
            ResolvedMethod::CharacterToLowerCase
        } else {
            ResolvedMethod::Unknown
        }
    } else {
        ResolvedMethod::Unknown
    }
}

/// Resolve a `Methodref` index against the intrinsic table; every broken
/// link in the pool chain yields `Unknown`.
pub fn resolve_method_reference(pool: &ConstantPool, method_ref: u16) -> (r: ResolvedMethod)
    ensures
        r == spec_resolve(pool.spec_entries(), method_ref),
{
    if method_ref == 0 {
        return ResolvedMethod::Unknown;
    }
    let entries = pool.entries();
    let j = (method_ref - 1) as usize;
    if j >= entries.len() {
        return ResolvedMethod::Unknown;
    }
    let (class_index, name_and_type_index) = match &entries[j] {
        ConstantPoolEntry::Methodref(c, n) => (*c, *n),
        _ => {
            return ResolvedMethod::Unknown;
        },
    };
    if class_index == 0 {
        return ResolvedMethod::Unknown;
    }
    let cj = (class_index - 1) as usize;
    if cj >= entries.len() {
        return ResolvedMethod::Unknown;
    }
    let name_index = match &entries[cj] {
        ConstantPoolEntry::Class(ni) => *ni,
        _ => {
            return ResolvedMethod::Unknown;
        },
    };
    let class_name = match utf8_opt(pool, name_index) {
        Some(s) => s,
        None => {
            return ResolvedMethod::Unknown;
        },
    };
    if name_and_type_index == 0 {
        return ResolvedMethod::Unknown;
    }
    let nj = (name_and_type_index - 1) as usize;
    if nj >= entries.len() {
        return ResolvedMethod::Unknown;
    }
    let (mn_index, md_index) = match &entries[nj] {
        ConstantPoolEntry::NameAndType(a, b) => (*a, *b),
        _ => {
            return ResolvedMethod::Unknown;
        },
    };
    let method_name = match utf8_opt(pool, mn_index) {
        Some(s) => s,
        None => {
            return ResolvedMethod::Unknown;
        },
    };
    let descriptor = match utf8_opt(pool, md_index) {
        Some(s) => s,
        None => {
            return ResolvedMethod::Unknown;
        },
    };
    intrinsic_for(class_name.as_str(), method_name.as_str(), descriptor.as_str())
}

/// Resolve a `Fieldref` index to `System.out` or `System.err`.
pub fn resolve_static_field_ref(pool: &ConstantPool, field_ref: u16) -> (r: Option<bool>)
    ensures
        r == spec_resolve_field(pool.spec_entries(), field_ref),
{
    if field_ref == 0 {
        return None;
    }
    let entries = pool.entries();
    let j = (field_ref - 1) as usize;
    if j >= entries.len() {
        return None;
    }
    let (class_index, name_and_type_index) = match &entries[j] {
        ConstantPoolEntry::Fieldref(c, n) => (*c, *n),
        _ => {
            return None;
        },
    };
    if class_index == 0 {
        return None;
    }
    let cj = (class_index - 1) as usize;
    if cj >= entries.len() {
        return None;
    }
    let name_index = match &entries[cj] {
        ConstantPoolEntry::Class(ni) => *ni,
        _ => {
            return None;
        },
    };
    let class_name = match utf8_opt(pool, name_index) {
        Some(s) => s,
        None => {
            return None;
        },
    };
    if !str_eq(class_name.as_str(), "java/lang/System") {
        return None;
    }
    if name_and_type_index == 0 {
        return None;
    }
    let nj = (name_and_type_index - 1) as usize;
    if nj >= entries.len() {
        return None;
    }
    let fn_index = match &entries[nj] {
        ConstantPoolEntry::NameAndType(a, _) => *a,
        _ => {
            return None;
        },
    };
    let field_name = match utf8_opt(pool, fn_index) {
        Some(s) => s,
        None => {
            return None;
        },
    };
    if str_eq(field_name.as_str(), "out") {
        Some(false)
    } else if str_eq(field_name.as_str(), "err") {
        Some(true)
    } else {
        None
    }
}

} // verus!
