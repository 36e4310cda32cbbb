//! Identifiers of the native standard library functions.

use vstd::prelude::*;

verus! {

/// A native standard library function.
#[derive(Debug, Clone, Copy, PartialEq, Eq, Structural)]
pub enum NativeId {
    /// `List.New`.
    ListNew,
    /// `List.Add`.
    ListAdd,
    /// `List.Get`.
    ListGet,
    /// `List.Set`.
    ListSet,
    /// `List.Insert`.
    ListInsert,
    /// `List.RemoveAt`.
    ListRemoveAt,
    /// `List.IndexOf`.
    ListIndexOf,
    /// `List.Contains`.
    ListContains,
    /// `List.Clear`.
    ListClear,
    /// `List.Count`.
    ListCount,
    /// `Map.New`.
    MapNew,
    /// `Map.Put`.
    MapPut,
    /// `Map.Get`.
    MapGet,
    /// `Map.ContainsKey`.
    MapContainsKey,
    /// `Map.Remove`.
    MapRemove,
    /// `Map.Keys`.
    MapKeys,
    /// `Map.Values`.
    MapValues,
    /// `Map.Clear`.
    MapClear,
    /// `Map.Count`.
    MapCount,
    /// `Set.New`.
    SetNew,
    /// `Set.Add`.
    SetAdd,
    /// `Set.Contains`.
    SetContains,
    /// `Set.Remove`.
    SetRemove,
    /// `Set.ToList`.
    SetToList,
    /// `Set.Clear`.
    SetClear,
    /// `Set.Count`.
    SetCount,
    /// `string.Length`.
    StrLength,
    /// `string.Substring`.
    StrSubstring,
    /// `string.CharAt`.
    StrCharAt,
    /// `string.Contains`.
    StrContains,
    /// `string.StartsWith`.
    StrStartsWith,
    /// `string.EndsWith`.
    StrEndsWith,
    /// `string.IndexOf`.
    StrIndexOf,
    /// `string.Split`.
    StrSplit,
    /// `string.Trim`.
    StrTrim,
    /// `string.ToUpper`.
    StrToUpper,
    /// `string.ToLower`.
    StrToLower,
    /// `string.Replace`.
    StrReplace,
    /// `string.ToInt`.
    StrToInt,
    /// `string.ToFloat`.
    StrToFloat,
    /// `Console.ReadLine`.
    ConsoleReadLine,
    /// `File.ReadAllText`.
    FileReadAllText,
    /// `File.WriteAllText`.
    FileWriteAllText,
    /// `File.AppendAllText`.
    FileAppendAllText,
    /// `File.Exists`.
    FileExists,
    /// `File.Delete`.
    FileDelete,
    /// `File.ReadAllLines`.
    FileReadAllLines,
}

/// The native function with number `n`.
pub open spec fn native_of(n: u16) -> Option<NativeId> {
    if n == 0 { Some(NativeId::ListNew) }
    else if n == 1 { Some(NativeId::ListAdd) }
    else if n == 2 { Some(NativeId::ListGet) }
    else if n == 3 { Some(NativeId::ListSet) }
    else if n == 4 { Some(NativeId::ListInsert) }
    else if n == 5 { Some(NativeId::ListRemoveAt) }
    else if n == 6 { Some(NativeId::ListIndexOf) }
    else if n == 7 { Some(NativeId::ListContains) }
    else if n == 8 { Some(NativeId::ListClear) }
    else if n == 9 { Some(NativeId::ListCount) }
    else if n == 10 { Some(NativeId::MapNew) }
    else if n == 11 { Some(NativeId::MapPut) }
    else if n == 12 { Some(NativeId::MapGet) }
    else if n == 13 { Some(NativeId::MapContainsKey) }
    else if n == 14 { Some(NativeId::MapRemove) }
    else if n == 15 { Some(NativeId::MapKeys) }
    else if n == 16 { Some(NativeId::MapValues) }
    else if n == 17 { Some(NativeId::MapClear) }
    else if n == 18 { Some(NativeId::MapCount) }
    else if n == 19 { Some(NativeId::SetNew) }
    else if n == 20 { Some(NativeId::SetAdd) }
    else if n == 21 { Some(NativeId::SetContains) }
    else if n == 22 { Some(NativeId::SetRemove) }
    else if n == 23 { Some(NativeId::SetToList) }
    else if n == 24 { Some(NativeId::SetClear) }
    else if n == 25 { Some(NativeId::SetCount) }
    else if n == 26 { Some(NativeId::StrLength) }
    else if n == 27 { Some(NativeId::StrSubstring) }
    else if n == 28 { Some(NativeId::StrCharAt) }
    else if n == 29 { Some(NativeId::StrContains) }
    else if n == 30 { Some(NativeId::StrStartsWith) }
    else if n == 31 { Some(NativeId::StrEndsWith) }
    else if n == 32 { Some(NativeId::StrIndexOf) }
    else if n == 33 { Some(NativeId::StrSplit) }
    else if n == 34 { Some(NativeId::StrTrim) }
    else if n == 35 { Some(NativeId::StrToUpper) }
    else if n == 36 { Some(NativeId::StrToLower) }
    else if n == 37 { Some(NativeId::StrReplace) }
    else if n == 38 { Some(NativeId::StrToInt) }
    else if n == 39 { Some(NativeId::StrToFloat) }
    else if n == 40 { Some(NativeId::ConsoleReadLine) }
    else if n == 41 { Some(NativeId::FileReadAllText) }
    else if n == 42 { Some(NativeId::FileWriteAllText) }
    else if n == 43 { Some(NativeId::FileAppendAllText) }
    else if n == 44 { Some(NativeId::FileExists) }
    else if n == 45 { Some(NativeId::FileDelete) }
    else if n == 46 { Some(NativeId::FileReadAllLines) }
    else { None }
}

/// How many arguments the function takes, the receiver included.
pub open spec fn native_arity(id: NativeId) -> nat {
    match id {
        NativeId::ListNew => 0,
        NativeId::ListAdd => 2,
        NativeId::ListGet => 2,
        NativeId::ListSet => 3,
        NativeId::ListInsert => 3,
        NativeId::ListRemoveAt => 2,
        NativeId::ListIndexOf => 2,
        NativeId::ListContains => 2,
        NativeId::ListClear => 1,
        NativeId::ListCount => 1,
        NativeId::MapNew => 0,
        NativeId::MapPut => 3,
        NativeId::MapGet => 2,
        NativeId::MapContainsKey => 2,
        NativeId::MapRemove => 2,
        NativeId::MapKeys => 1,
        NativeId::MapValues => 1,
        NativeId::MapClear => 1,
        NativeId::MapCount => 1,
        NativeId::SetNew => 0,
        NativeId::SetAdd => 2,
        NativeId::SetContains => 2,
        NativeId::SetRemove => 2,
        NativeId::SetToList => 1,
        NativeId::SetClear => 1,
        NativeId::SetCount => 1,
        NativeId::StrLength => 1,
        NativeId::StrSubstring => 3,
        NativeId::StrCharAt => 2,
        NativeId::StrContains => 2,
        NativeId::StrStartsWith => 2,
        NativeId::StrEndsWith => 2,
        NativeId::StrIndexOf => 2,
        NativeId::StrSplit => 2,
        NativeId::StrTrim => 1,
        NativeId::StrToUpper => 1,
        NativeId::StrToLower => 1,
        NativeId::StrReplace => 3,
        NativeId::StrToInt => 1,
        NativeId::StrToFloat => 1,
        NativeId::ConsoleReadLine => 0,
        NativeId::FileReadAllText => 1,
        NativeId::FileWriteAllText => 2,
        NativeId::FileAppendAllText => 2,
        NativeId::FileExists => 1,
        NativeId::FileDelete => 1,
        NativeId::FileReadAllLines => 1,
    }
}

/// The source name of the function.
pub open spec fn native_name(id: NativeId) -> Seq<char> {
    match id {
        NativeId::ListNew => "List.New"@,
        NativeId::ListAdd => "List.Add"@,
        NativeId::ListGet => "List.Get"@,
        NativeId::ListSet => "List.Set"@,
        NativeId::ListInsert => "List.Insert"@,
        NativeId::ListRemoveAt => "List.RemoveAt"@,
        NativeId::ListIndexOf => "List.IndexOf"@,
        NativeId::ListContains => "List.Contains"@,
        NativeId::ListClear => "List.Clear"@,
        NativeId::ListCount => "List.Count"@,
        NativeId::MapNew => "Map.New"@,
        NativeId::MapPut => "Map.Put"@,
        NativeId::MapGet => "Map.Get"@,
        NativeId::MapContainsKey => "Map.ContainsKey"@,
        NativeId::MapRemove => "Map.Remove"@,
        NativeId::MapKeys => "Map.Keys"@,
        NativeId::MapValues => "Map.Values"@,
        NativeId::MapClear => "Map.Clear"@,
        NativeId::MapCount => "Map.Count"@,
        NativeId::SetNew => "Set.New"@,
        NativeId::SetAdd => "Set.Add"@,
        NativeId::SetContains => "Set.Contains"@,
        NativeId::SetRemove => "Set.Remove"@,
        NativeId::SetToList => "Set.ToList"@,
        NativeId::SetClear => "Set.Clear"@,
        NativeId::SetCount => "Set.Count"@,
        NativeId::StrLength => "string.Length"@,
        NativeId::StrSubstring => "string.Substring"@,
        NativeId::StrCharAt => "string.CharAt"@,
        NativeId::StrContains => "string.Contains"@,
        NativeId::StrStartsWith => "string.StartsWith"@,
        NativeId::StrEndsWith => "string.EndsWith"@,
        NativeId::StrIndexOf => "string.IndexOf"@,
        NativeId::StrSplit => "string.Split"@,
        NativeId::StrTrim => "string.Trim"@,
        NativeId::StrToUpper => "string.ToUpper"@,
        NativeId::StrToLower => "string.ToLower"@,
        NativeId::StrReplace => "string.Replace"@,
        NativeId::StrToInt => "string.ToInt"@,
        NativeId::StrToFloat => "string.ToFloat"@,
        NativeId::ConsoleReadLine => "Console.ReadLine"@,
        NativeId::FileReadAllText => "File.ReadAllText"@,
        NativeId::FileWriteAllText => "File.WriteAllText"@,
        NativeId::FileAppendAllText => "File.AppendAllText"@,
        NativeId::FileExists => "File.Exists"@,
        NativeId::FileDelete => "File.Delete"@,
        NativeId::FileReadAllLines => "File.ReadAllLines"@,
    }
}

/// The part of the name before the dot.
pub open spec fn native_class(id: NativeId) -> Seq<char> {
    match id {
        NativeId::ListNew => "List"@,
        NativeId::ListAdd => "List"@,
        NativeId::ListGet => "List"@,
        NativeId::ListSet => "List"@,
        NativeId::ListInsert => "List"@,
        NativeId::ListRemoveAt => "List"@,
        NativeId::ListIndexOf => "List"@,
        NativeId::ListContains => "List"@,
        NativeId::ListClear => "List"@,
        NativeId::ListCount => "List"@,
        NativeId::MapNew => "Map"@,
        NativeId::MapPut => "Map"@,
        NativeId::MapGet => "Map"@,
        NativeId::MapContainsKey => "Map"@,
        NativeId::MapRemove => "Map"@,
        NativeId::MapKeys => "Map"@,
        NativeId::MapValues => "Map"@,
        NativeId::MapClear => "Map"@,
        NativeId::MapCount => "Map"@,
        NativeId::SetNew => "Set"@,
        NativeId::SetAdd => "Set"@,
        NativeId::SetContains => "Set"@,
        NativeId::SetRemove => "Set"@,
        NativeId::SetToList => "Set"@,
        NativeId::SetClear => "Set"@,
        NativeId::SetCount => "Set"@,
        NativeId::StrLength => "string"@,
        NativeId::StrSubstring => "string"@,
        NativeId::StrCharAt => "string"@,
        NativeId::StrContains => "string"@,
        NativeId::StrStartsWith => "string"@,
        NativeId::StrEndsWith => "string"@,
        NativeId::StrIndexOf => "string"@,
        NativeId::StrSplit => "string"@,
        NativeId::StrTrim => "string"@,
        NativeId::StrToUpper => "string"@,
        NativeId::StrToLower => "string"@,
        NativeId::StrReplace => "string"@,
        NativeId::StrToInt => "string"@,
        NativeId::StrToFloat => "string"@,
        NativeId::ConsoleReadLine => "Console"@,
        NativeId::FileReadAllText => "File"@,
        NativeId::FileWriteAllText => "File"@,
        NativeId::FileAppendAllText => "File"@,
        NativeId::FileExists => "File"@,
        NativeId::FileDelete => "File"@,
        NativeId::FileReadAllLines => "File"@,
    }
}

impl NativeId {
    /// The native function with number `n`.
    pub fn from_u16(n: u16) -> (id: Option<NativeId>)
        ensures
            id == native_of(n),
    {
        match n {
            0 => Some(NativeId::ListNew),
            1 => Some(NativeId::ListAdd),
            2 => Some(NativeId::ListGet),
            3 => Some(NativeId::ListSet),
            4 => Some(NativeId::ListInsert),
            5 => Some(NativeId::ListRemoveAt),
            6 => Some(NativeId::ListIndexOf),
            7 => Some(NativeId::ListContains),
            8 => Some(NativeId::ListClear),
            9 => Some(NativeId::ListCount),
            10 => Some(NativeId::MapNew),
            11 => Some(NativeId::MapPut),
            12 => Some(NativeId::MapGet),
            13 => Some(NativeId::MapContainsKey),
            14 => Some(NativeId::MapRemove),
            15 => Some(NativeId::MapKeys),
            16 => Some(NativeId::MapValues),
            17 => Some(NativeId::MapClear),
            18 => Some(NativeId::MapCount),
            19 => Some(NativeId::SetNew),
            20 => Some(NativeId::SetAdd),
            21 => Some(NativeId::SetContains),
            22 => Some(NativeId::SetRemove),
            23 => Some(NativeId::SetToList),
            24 => Some(NativeId::SetClear),
            25 => Some(NativeId::SetCount),
            26 => Some(NativeId::StrLength),
            27 => Some(NativeId::StrSubstring),
            28 => Some(NativeId::StrCharAt),
            29 => Some(NativeId::StrContains),
            30 => Some(NativeId::StrStartsWith),
            31 => Some(NativeId::StrEndsWith),
            32 => Some(NativeId::StrIndexOf),
            33 => Some(NativeId::StrSplit),
            34 => Some(NativeId::StrTrim),
            35 => Some(NativeId::StrToUpper),
            36 => Some(NativeId::StrToLower),
            37 => Some(NativeId::StrReplace),
            38 => Some(NativeId::StrToInt),
            39 => Some(NativeId::StrToFloat),
            40 => Some(NativeId::ConsoleReadLine),
            41 => Some(NativeId::FileReadAllText),
            42 => Some(NativeId::FileWriteAllText),
            43 => Some(NativeId::FileAppendAllText),
            44 => Some(NativeId::FileExists),
            45 => Some(NativeId::FileDelete),
            46 => Some(NativeId::FileReadAllLines),
            _ => None,
        }
    }

    /// How many arguments the function takes, the receiver included.
    pub fn arity(self) -> (n: usize)
        ensures
            n == native_arity(self),
    {
        match self {
            NativeId::ListNew => 0,
            NativeId::ListAdd => 2,
            NativeId::ListGet => 2,
            NativeId::ListSet => 3,
            NativeId::ListInsert => 3,
            NativeId::ListRemoveAt => 2,
            NativeId::ListIndexOf => 2,
            NativeId::ListContains => 2,
            NativeId::ListClear => 1,
            NativeId::ListCount => 1,
            NativeId::MapNew => 0,
            NativeId::MapPut => 3,
            NativeId::MapGet => 2,
            NativeId::MapContainsKey => 2,
            NativeId::MapRemove => 2,
            NativeId::MapKeys => 1,
            NativeId::MapValues => 1,
            NativeId::MapClear => 1,
            NativeId::MapCount => 1,
            NativeId::SetNew => 0,
            NativeId::SetAdd => 2,
            NativeId::SetContains => 2,
            NativeId::SetRemove => 2,
            NativeId::SetToList => 1,
            NativeId::SetClear => 1,
            NativeId::SetCount => 1,
            NativeId::StrLength => 1,
            NativeId::StrSubstring => 3,
            NativeId::StrCharAt => 2,
            NativeId::StrContains => 2,
            NativeId::StrStartsWith => 2,
            NativeId::StrEndsWith => 2,
            NativeId::StrIndexOf => 2,
            NativeId::StrSplit => 2,
            NativeId::StrTrim => 1,
            NativeId::StrToUpper => 1,
            NativeId::StrToLower => 1,
            NativeId::StrReplace => 3,
            NativeId::StrToInt => 1,
            NativeId::StrToFloat => 1,
            NativeId::ConsoleReadLine => 0,
            NativeId::FileReadAllText => 1,
            NativeId::FileWriteAllText => 2,
            NativeId::FileAppendAllText => 2,
            NativeId::FileExists => 1,
            NativeId::FileDelete => 1,
            NativeId::FileReadAllLines => 1,
        }
    }

    /// The source name of the function.
    pub fn name(self) -> (s: &'static str)
        ensures
            s@ == native_name(self),
    {
        match self {
            NativeId::ListNew => "List.New",
            NativeId::ListAdd => "List.Add",
            NativeId::ListGet => "List.Get",
            NativeId::ListSet => "List.Set",
            NativeId::ListInsert => "List.Insert",
            NativeId::ListRemoveAt => "List.RemoveAt",
            NativeId::ListIndexOf => "List.IndexOf",
            NativeId::ListContains => "List.Contains",
            NativeId::ListClear => "List.Clear",
            NativeId::ListCount => "List.Count",
            NativeId::MapNew => "Map.New",
            NativeId::MapPut => "Map.Put",
            NativeId::MapGet => "Map.Get",
            NativeId::MapContainsKey => "Map.ContainsKey",
            NativeId::MapRemove => "Map.Remove",
            NativeId::MapKeys => "Map.Keys",
            NativeId::MapValues => "Map.Values",
            NativeId::MapClear => "Map.Clear",
            NativeId::MapCount => "Map.Count",
            NativeId::SetNew => "Set.New",
            NativeId::SetAdd => "Set.Add",
            NativeId::SetContains => "Set.Contains",
            NativeId::SetRemove => "Set.Remove",
            NativeId::SetToList => "Set.ToList",
            NativeId::SetClear => "Set.Clear",
            NativeId::SetCount => "Set.Count",
            NativeId::StrLength => "string.Length",
            NativeId::StrSubstring => "string.Substring",
            NativeId::StrCharAt => "string.CharAt",
            NativeId::StrContains => "string.Contains",
            NativeId::StrStartsWith => "string.StartsWith",
            NativeId::StrEndsWith => "string.EndsWith",
            NativeId::StrIndexOf => "string.IndexOf",
            NativeId::StrSplit => "string.Split",
            NativeId::StrTrim => "string.Trim",
            NativeId::StrToUpper => "string.ToUpper",
            NativeId::StrToLower => "string.ToLower",
            NativeId::StrReplace => "string.Replace",
            NativeId::StrToInt => "string.ToInt",
            NativeId::StrToFloat => "string.ToFloat",
            NativeId::ConsoleReadLine => "Console.ReadLine",
            NativeId::FileReadAllText => "File.ReadAllText",
            NativeId::FileWriteAllText => "File.WriteAllText",
            NativeId::FileAppendAllText => "File.AppendAllText",
            NativeId::FileExists => "File.Exists",
            NativeId::FileDelete => "File.Delete",
            NativeId::FileReadAllLines => "File.ReadAllLines",
        }
    }

    /// The part of the name before the dot.
    pub fn class_name(self) -> (s: &'static str)
        ensures
            s@ == native_class(self),
    {
        match self {
            NativeId::ListNew => "List",
            NativeId::ListAdd => "List",
            NativeId::ListGet => "List",
            NativeId::ListSet => "List",
            NativeId::ListInsert => "List",
            NativeId::ListRemoveAt => "List",
            NativeId::ListIndexOf => "List",
            NativeId::ListContains => "List",
            NativeId::ListClear => "List",
            NativeId::ListCount => "List",
            NativeId::MapNew => "Map",
            NativeId::MapPut => "Map",
            NativeId::MapGet => "Map",
            NativeId::MapContainsKey => "Map",
            NativeId::MapRemove => "Map",
            NativeId::MapKeys => "Map",
            NativeId::MapValues => "Map",
            NativeId::MapClear => "Map",
            NativeId::MapCount => "Map",
            NativeId::SetNew => "Set",
            NativeId::SetAdd => "Set",
            NativeId::SetContains => "Set",
            NativeId::SetRemove => "Set",
            NativeId::SetToList => "Set",
            NativeId::SetClear => "Set",
            NativeId::SetCount => "Set",
            NativeId::StrLength => "string",
            NativeId::StrSubstring => "string",
            NativeId::StrCharAt => "string",
            NativeId::StrContains => "string",
            NativeId::StrStartsWith => "string",
            NativeId::StrEndsWith => "string",
            NativeId::StrIndexOf => "string",
            NativeId::StrSplit => "string",
            NativeId::StrTrim => "string",
            NativeId::StrToUpper => "string",
            NativeId::StrToLower => "string",
            NativeId::StrReplace => "string",
            NativeId::StrToInt => "string",
            NativeId::StrToFloat => "string",
            NativeId::ConsoleReadLine => "Console",
            NativeId::FileReadAllText => "File",
            NativeId::FileWriteAllText => "File",
            NativeId::FileAppendAllText => "File",
            NativeId::FileExists => "File",
            NativeId::FileDelete => "File",
            NativeId::FileReadAllLines => "File",
        }
    }
}

} // verus!
