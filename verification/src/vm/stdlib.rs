//! The native standard library. The interpreter and compiled code call the same
//! function, so that the two tiers cannot differ. Arguments come in the order in
//! which they were pushed: the receiver first, then the others from left to
//! right. Every native function returns exactly one value.

use crate::bytecode::Module;
use crate::natives::{native_arity, native_name, NativeId};
use crate::text::{cat2, cat3, cat4, cat5, cat7, dec, dec_u64, own};
use crate::typer::suggest::chars_of;
use crate::vm::collections::{
    bad_index, bad_receiver, count_value, dict_effect, dict_in, index_arg, index_of_arg,
    list_effect, list_in, out_of_range, runtime, set_effect, set_in, wrong_receiver,
};
use crate::vm::heap::{heap_ok, string_at, Heap, HeapModel};
use crate::vm::ops::{made, next_handle, store_ok, stored, Boxed, Store, StoreModel};
use crate::vm::strings::{
    chomp, chomped, ends_with, first_place, index_of, int_from, lines, lines_from, lower_text,
    occurs_at, parse_int, replace, replace_from, split, split_from, starts_with, text_between,
    texts, to_lower, to_upper, trim, trimmed, upper_text,
};
use crate::vm::value::{AuraObject, ObjectModel, Value};
use crate::vm::world::{
    parsed_from, Answers, Applied, Ask, Effect, Fault, Question, Reply, ReplyModel, VmError, World,
};
use vstd::prelude::*;

verus! {

/// The text of a string argument.
pub open spec fn str_of(h: HeapModel, id: NativeId, v: Value) -> Result<Seq<char>, Effect> {
    match v {
        Value::String(r) => match string_at(h, r.0) {
            Some(s) => Ok(s),
            None => Err(runtime(native_name(id) + ": dangling string handle"@)),
        },
        _ => Err(wrong_receiver(id, v)),
    }
}

/// The first `n` texts as strings on the heap: their values and the store, or
/// an error and how far it came.
pub open spec fn stored_texts(s: StoreModel, ts: Seq<Seq<char>>, n: int) -> (
    Result<Seq<Value>, Fault>,
    StoreModel,
)
    decreases n,
{
    if n <= 0 {
        (Ok(Seq::empty()), s)
    } else {
        match stored_texts(s, ts, n - 1) {
            (Err(e), s2) => (Err(e), s2),
            (Ok(vs), s2) => match next_handle(s2) {
                Err(e) => (Err(e), s2),
                Ok(r) => (
                    Ok(vs.push(Value::String(r))),
                    stored(s2, ObjectModel::String(ts[n - 1])),
                ),
            },
        }
    }
}

/// A list of texts.
pub open spec fn text_list(s: StoreModel, ts: Seq<Seq<char>>) -> (Effect, StoreModel) {
    match stored_texts(s, ts, ts.len() as int) {
        (Err(e), s2) => (Effect::Failed(e), s2),
        (Ok(vs), s2) => made(s2, Boxed::Thing, ObjectModel::Array(vs)),
    }
}

/// What a native function of strings does with the string `t`.
pub open spec fn text_effect(
    module: Module,
    s: StoreModel,
    w: Answers,
    id: NativeId,
    args: Seq<Value>,
    t: Seq<char>,
) -> (Effect, StoreModel) {
    match id {
        NativeId::StrSubstring => match index_of_arg(module, s.heap, w, id, args[1]) {
            Err(e) => (e, s),
            Ok(start) => match index_of_arg(module, s.heap, w, id, args[2]) {
                Err(e) => (e, s),
                Ok(len) => if start + len > t.len() {
                    (
                        runtime(
                            native_name(id) + ": range "@ + dec(start as nat) + ".."@ + dec(
                                (start + len) as nat,
                            ) + " out of bounds for length "@ + dec(t.len()),
                        ),
                        s,
                    )
                } else {
                    made(s, Boxed::Text, ObjectModel::String(t.subrange(start, start + len)))
                },
            },
        },
        NativeId::StrCharAt => match index_of_arg(module, s.heap, w, id, args[1]) {
            Err(e) => (e, s),
            Ok(i) => if i < t.len() {
                (Effect::Value(Value::Char(t[i])), s)
            } else {
                (out_of_range(id, i, t.len()), s)
            },
        },
        NativeId::StrContains => match str_of(s.heap, id, args[1]) {
            Err(e) => (e, s),
            Ok(u) => (Effect::Value(Value::Bool(first_place(t, u, 0) is Some)), s),
        },
        NativeId::StrStartsWith => match str_of(s.heap, id, args[1]) {
            Err(e) => (e, s),
            Ok(u) => (Effect::Value(Value::Bool(occurs_at(t, u, 0))), s),
        },
        NativeId::StrEndsWith => match str_of(s.heap, id, args[1]) {
            Err(e) => (e, s),
            Ok(u) => (Effect::Value(Value::Bool(occurs_at(t, u, t.len() - u.len()))), s),
        },
        NativeId::StrIndexOf => match str_of(s.heap, id, args[1]) {
            Err(e) => (e, s),
            Ok(u) => (
                Effect::Value(
                    match first_place(t, u, 0) {
                        Some(p) => count_value(p as nat),
                        None => Value::Int((-1int) as i64),
                    },
                ),
                s,
            ),
        },
        NativeId::StrSplit => match str_of(s.heap, id, args[1]) {
            Err(e) => (e, s),
            Ok(u) => if u.len() == 0 {
                (runtime(native_name(id) + ": empty separator"@), s)
            } else {
                text_list(s, split_from(t, u, 0))
            },
        },
        NativeId::StrTrim => made(s, Boxed::Text, ObjectModel::String(trimmed(t))),
        NativeId::StrToUpper => made(s, Boxed::Text, ObjectModel::String(upper_text(t))),
        NativeId::StrToLower => made(s, Boxed::Text, ObjectModel::String(lower_text(t))),
        NativeId::StrReplace => match str_of(s.heap, id, args[1]) {
            Err(e) => (e, s),
            Ok(u) => match str_of(s.heap, id, args[2]) {
                Err(e) => (e, s),
                Ok(x) => if u.len() == 0 {
                    (runtime(native_name(id) + ": empty search string"@), s)
                } else {
                    made(s, Boxed::Text, ObjectModel::String(replace_from(t, u, x, 0)))
                },
            },
        },
        NativeId::StrToInt => (
            match int_from(trimmed(t)) {
                Some(n) => Effect::Value(Value::Int(n)),
                None => runtime(native_name(id) + ": cannot parse `"@ + t + "` as int"@),
            },
            s,
        ),
        NativeId::StrToFloat => (
            match parsed_from(w.parsed, trimmed(t), 0) {
                None => Effect::Ask(Question::ParseFloat(trimmed(t))),
                Some(Some(b)) => Effect::Value(Value::Float(b)),
                Some(None) => runtime(
                    native_name(id) + ": cannot parse `"@ + t + "` as float"@,
                ),
            },
            s,
        ),
        _ => (Effect::Value(count_value(t.len())), s),
    }
}

/// What reading a line comes to.
pub open spec fn line_effect(s: StoreModel, w: Answers) -> (Effect, StoreModel) {
    let name = native_name(NativeId::ConsoleReadLine);
    match w.reply {
        None => (Effect::Ask(Question::ReadLine), s),
        Some(ReplyModel::End) => (Effect::Value(Value::Null), s),
        Some(ReplyModel::Text(l)) => made(s, Boxed::Text, ObjectModel::String(chomped(l))),
        Some(ReplyModel::Failed(e)) => (runtime(name + ": "@ + e), s),
        Some(_) => (runtime(name + ": unexpected reply"@), s),
    }
}

/// A failure of input or output.
pub open spec fn io_fault(id: NativeId, path: Seq<char>, r: ReplyModel) -> Effect {
    runtime(
        native_name(id) + ": "@ + path + ": "@ + (match r {
            ReplyModel::Failed(e) => e,
            _ => "unexpected reply"@,
        }),
    )
}

/// What a native function of files comes to, for the file `path`; `contents` is
/// what there is to write.
pub open spec fn file_effect(
    s: StoreModel,
    w: Answers,
    id: NativeId,
    path: Seq<char>,
    contents: Seq<char>,
) -> (Effect, StoreModel) {
    match w.reply {
        None => (
            Effect::Ask(
                match id {
                    NativeId::FileWriteAllText => Question::WriteFile(path, contents),
                    NativeId::FileAppendAllText => Question::AppendFile(path, contents),
                    NativeId::FileExists => Question::FileExists(path),
                    NativeId::FileDelete => Question::DeleteFile(path),
                    _ => Question::ReadFile(path),
                },
            ),
            s,
        ),
        Some(r) => match (id, r) {
            (NativeId::FileReadAllText, ReplyModel::Text(t)) => made(
                s,
                Boxed::Text,
                ObjectModel::String(t),
            ),
            (NativeId::FileReadAllLines, ReplyModel::Text(t)) => text_list(s, lines_from(t, 0)),
            (NativeId::FileWriteAllText, ReplyModel::Done) => (Effect::Value(Value::Unit), s),
            (NativeId::FileAppendAllText, ReplyModel::Done) => (Effect::Value(Value::Unit), s),
            (NativeId::FileDelete, ReplyModel::Done) => (Effect::Value(Value::Unit), s),
            (NativeId::FileExists, ReplyModel::Flag(b)) => (Effect::Value(Value::Bool(b)), s),
            _ => (io_fault(id, path, r), s),
        },
    }
}

/// Whether a native function of files has contents to write.
pub open spec fn writes(id: NativeId) -> bool {
    id is FileWriteAllText || id is FileAppendAllText
}

// ---------------------------------------------------------------------------
// Strings
// ---------------------------------------------------------------------------

/// A text or what came instead, by value.
pub open spec fn str_or_effect(r: Result<&str, Applied>) -> Result<Seq<char>, Effect> {
    match r {
        Ok(s) => Ok(s@),
        Err(a) => Err(a@),
    }
}

fn str_arg<'a>(heap: &'a Heap, id: NativeId, v: Value) -> (r: Result<&'a str, Applied>)
    requires
        heap_ok(heap@),
    ensures
        str_or_effect(r) == str_of(heap@, id, v),
{
    match v {
        Value::String(h) => match heap.get_string(h) {
            Some(s) => Ok(s),
            None => Err(
                Applied::Failed(VmError::Runtime(cat2(id.name(), ": dangling string handle"))),
            ),
        },
        _ => Err(bad_receiver(id, v)),
    }
}

impl Store {
    fn make_list(&mut self, ts: Vec<String>) -> (r: Applied)
        requires
            store_ok(old(self)@),
        ensures
            store_ok(final(self)@),
            (r@, final(self)@) == text_list(old(self)@, texts(ts@)),
    {
        let ghost all = texts(ts@);
        let mut vs: Vec<Value> = Vec::new();
        let mut i: usize = 0;
        while i < ts.len()
            invariant
                i <= ts@.len(),
                all == texts(ts@),
                store_ok(self@),
                stored_texts(old(self)@, all, i as int) == (
                    Ok::<Seq<Value>, Fault>(vs@),
                    self@,
                ),
            decreases ts.len() - i,
        {
            let t: String = ts[i].clone();
            assert(all[i as int] == t@);
            match self.store(AuraObject::String(t)) {
                Ok(h) => {
                    vs.push(Value::String(h));
                },
                Err(e) => {
                    proof {
                        failed_prefix(old(self)@, all, i + 1, all.len() as int);
                    }
                    return Applied::Failed(e);
                },
            }
            i = i + 1;
        }
        self.make(Boxed::Thing, AuraObject::Array { elements: vs })
    }

    fn text_native(&mut self, module: &Module, world: &World, id: NativeId, args: &Vec<Value>) -> (r:
        Applied)
        requires
            store_ok(old(self)@),
            args@.len() == native_arity(id),
            args@.len() >= 1,
        ensures
            store_ok(final(self)@),
            (r@, final(self)@) == (match str_of(old(self)@.heap, id, args@[0]) {
                Err(e) => (e, old(self)@),
                Ok(t) => text_effect(*module, old(self)@, world@, id, args@, t),
            }),
    {
        let t: &str = match str_arg(&self.heap, id, args[0]) {
            Ok(t) => t,
            Err(e) => return e,
        };
        match id {
            NativeId::StrSubstring => {
                let start: u64 = match index_arg(module, &self.heap, world, id, args[1]) {
                    Ok(i) => i,
                    Err(e) => return e,
                };
                let len: u64 = match index_arg(module, &self.heap, world, id, args[2]) {
                    Ok(i) => i,
                    Err(e) => return e,
                };
                let cs: Vec<char> = chars_of(t);
                let n: usize = cs.len();
                if start + len > n as u64 {
                    let a: String = dec_u64(start);
                    let b: String = dec_u64(start + len);
                    let c: String = dec_u64(n as u64);
                    return Applied::Failed(
                        VmError::Runtime(
                            cat7(
                                id.name(),
                                ": range ",
                                a.as_str(),
                                "..",
                                b.as_str(),
                                " out of bounds for length ",
                                c.as_str(),
                            ),
                        ),
                    );
                }
                let part: String = text_between(&cs, start as usize, (start + len) as usize);
                self.make(Boxed::Text, AuraObject::String(part))
            },
            NativeId::StrCharAt => {
                let i: u64 = match index_arg(module, &self.heap, world, id, args[1]) {
                    Ok(i) => i,
                    Err(e) => return e,
                };
                let n: usize = t.unicode_len();
                if i < n as u64 {
                    Applied::Value(Value::Char(t.get_char(i as usize)))
                } else {
                    bad_index(id, i, n)
                }
            },
            NativeId::StrContains
            | NativeId::StrStartsWith
            | NativeId::StrEndsWith
            | NativeId::StrIndexOf => {
                let u: &str = match str_arg(&self.heap, id, args[1]) {
                    Ok(u) => u,
                    Err(e) => return e,
                };
                match id {
                    NativeId::StrContains => Applied::Value(Value::Bool(index_of(t, u).is_some())),
                    NativeId::StrStartsWith => Applied::Value(Value::Bool(starts_with(t, u))),
                    NativeId::StrEndsWith => Applied::Value(Value::Bool(ends_with(t, u))),
                    _ => match index_of(t, u) {
                        Some(p) => Applied::Value(Value::Int(p as i64)),
                        None => Applied::Value(Value::Int(-1)),
                    },
                }
            },
            NativeId::StrSplit => {
                let u: &str = match str_arg(&self.heap, id, args[1]) {
                    Ok(u) => u,
                    Err(e) => return e,
                };
                if u.unicode_len() == 0 {
                    return Applied::Failed(VmError::Runtime(cat2(id.name(), ": empty separator")));
                }
                let parts: Vec<String> = split(t, u);
                self.make_list(parts)
            },
            NativeId::StrTrim => {
                let u: String = trim(t);
                self.make(Boxed::Text, AuraObject::String(u))
            },
            NativeId::StrToUpper => {
                let u: String = to_upper(t);
                self.make(Boxed::Text, AuraObject::String(u))
            },
            NativeId::StrToLower => {
                let u: String = to_lower(t);
                self.make(Boxed::Text, AuraObject::String(u))
            },
            NativeId::StrReplace => {
                let u: &str = match str_arg(&self.heap, id, args[1]) {
                    Ok(u) => u,
                    Err(e) => return e,
                };
                let x: &str = match str_arg(&self.heap, id, args[2]) {
                    Ok(x) => x,
                    Err(e) => return e,
                };
                if u.unicode_len() == 0 {
                    return Applied::Failed(
                        VmError::Runtime(cat2(id.name(), ": empty search string")),
                    );
                }
                let out: String = replace(t, u, x);
                self.make(Boxed::Text, AuraObject::String(out))
            },
            NativeId::StrToInt => {
                let u: String = trim(t);
                match parse_int(u.as_str()) {
                    Some(n) => Applied::Value(Value::Int(n)),
                    None => Applied::Failed(
                        VmError::Runtime(cat4(id.name(), ": cannot parse `", t, "` as int")),
                    ),
                }
            },
            NativeId::StrToFloat => {
                let u: String = trim(t);
                match world.parse_of(u.as_str()) {
                    None => Applied::Ask(Ask::ParseFloat(u)),
                    Some(Some(b)) => Applied::Value(Value::Float(b)),
                    Some(None) => Applied::Failed(
                        VmError::Runtime(cat4(id.name(), ": cannot parse `", t, "` as float")),
                    ),
                }
            },
            _ => Applied::Value(Value::Int(t.unicode_len() as i64)),
        }
    }
}

/// Where storing a text fails, storing more fails in the same way.
proof fn failed_prefix(s: StoreModel, ts: Seq<Seq<char>>, k: int, n: int)
    requires
        k <= n,
        stored_texts(s, ts, k).0 is Err,
    ensures
        stored_texts(s, ts, n) == stored_texts(s, ts, k),
    decreases n - k,
{
    if k < n {
        failed_prefix(s, ts, k, n - 1);
        if n <= 0 {
            assert(k <= 0);
        }
    }
}

// ---------------------------------------------------------------------------
// Input and output
// ---------------------------------------------------------------------------

fn io_failed(id: NativeId, path: &str, r: &Reply) -> (out: Applied)
    ensures
        out@ == io_fault(id, path@, r@),
{
    let why: &str = match r {
        Reply::Failed(e) => e.as_str(),
        _ => "unexpected reply",
    };
    Applied::Failed(VmError::Runtime(cat5(id.name(), ": ", path, ": ", why)))
}

impl Store {
    fn read_line(&mut self, world: &World) -> (r: Applied)
        requires
            store_ok(old(self)@),
        ensures
            store_ok(final(self)@),
            (r@, final(self)@) == line_effect(old(self)@, world@),
    {
        let name: &str = NativeId::ConsoleReadLine.name();
        match &world.reply {
            None => Applied::Ask(Ask::ReadLine),
            Some(reply) => match reply {
                Reply::End => Applied::Value(Value::Null),
                Reply::Text(l) => {
                    let line: String = chomp(l.as_str());
                    self.make(Boxed::Text, AuraObject::String(line))
                },
                Reply::Failed(e) => Applied::Failed(
                    VmError::Runtime(cat3(name, ": ", e.as_str())),
                ),
                _ => Applied::Failed(VmError::Runtime(cat2(name, ": unexpected reply"))),
            },
        }
    }

    fn file_native(&mut self, world: &World, id: NativeId, path: String, contents: String) -> (r:
        Applied)
        requires
            store_ok(old(self)@),
        ensures
            store_ok(final(self)@),
            (r@, final(self)@) == file_effect(old(self)@, world@, id, path@, contents@),
    {
        match &world.reply {
            None => Applied::Ask(
                match id {
                    NativeId::FileWriteAllText => Ask::WriteFile(path, contents),
                    NativeId::FileAppendAllText => Ask::AppendFile(path, contents),
                    NativeId::FileExists => Ask::FileExists(path),
                    NativeId::FileDelete => Ask::DeleteFile(path),
                    _ => Ask::ReadFile(path),
                },
            ),
            Some(reply) => match (id, reply) {
                (NativeId::FileReadAllText, Reply::Text(t)) => {
                    let text: String = t.clone();
                    self.make(Boxed::Text, AuraObject::String(text))
                },
                (NativeId::FileReadAllLines, Reply::Text(t)) => {
                    let ls: Vec<String> = lines(t.as_str());
                    self.make_list(ls)
                },
                (NativeId::FileWriteAllText, Reply::Done) => Applied::Value(Value::Unit),
                (NativeId::FileAppendAllText, Reply::Done) => Applied::Value(Value::Unit),
                (NativeId::FileDelete, Reply::Done) => Applied::Value(Value::Unit),
                (NativeId::FileExists, Reply::Flag(b)) => Applied::Value(Value::Bool(*b)),
                _ => io_failed(id, path.as_str(), reply),
            },
        }
    }
}

// ---------------------------------------------------------------------------
// All of them
// ---------------------------------------------------------------------------

/// What kind of receiver a native function has.
#[derive(Debug, Clone, Copy, PartialEq, Eq, Structural)]
pub enum Family {
    /// It makes a new collection.
    Make,
    /// A list.
    List,
    /// A map.
    Dict,
    /// A set.
    Items,
    /// A string.
    Text,
    /// The console.
    Line,
    /// A file.
    File,
}

/// What kind of receiver a native function has.
pub open spec fn family(id: NativeId) -> Family {
    match id {
        NativeId::ListNew | NativeId::MapNew | NativeId::SetNew => Family::Make,
        NativeId::ListAdd
        | NativeId::ListGet
        | NativeId::ListSet
        | NativeId::ListInsert
        | NativeId::ListRemoveAt
        | NativeId::ListIndexOf
        | NativeId::ListContains
        | NativeId::ListClear
        | NativeId::ListCount => Family::List,
        NativeId::MapPut
        | NativeId::MapGet
        | NativeId::MapContainsKey
        | NativeId::MapRemove
        | NativeId::MapKeys
        | NativeId::MapValues
        | NativeId::MapClear
        | NativeId::MapCount => Family::Dict,
        NativeId::SetAdd
        | NativeId::SetContains
        | NativeId::SetRemove
        | NativeId::SetToList
        | NativeId::SetClear
        | NativeId::SetCount => Family::Items,
        NativeId::ConsoleReadLine => Family::Line,
        NativeId::FileReadAllText
        | NativeId::FileWriteAllText
        | NativeId::FileAppendAllText
        | NativeId::FileExists
        | NativeId::FileDelete
        | NativeId::FileReadAllLines => Family::File,
        _ => Family::Text,
    }
}

fn family_of(id: NativeId) -> (r: Family)
    ensures
        r == family(id),
{
    match id {
        NativeId::ListNew | NativeId::MapNew | NativeId::SetNew => Family::Make,
        NativeId::ListAdd
        | NativeId::ListGet
        | NativeId::ListSet
        | NativeId::ListInsert
        | NativeId::ListRemoveAt
        | NativeId::ListIndexOf
        | NativeId::ListContains
        | NativeId::ListClear
        | NativeId::ListCount => Family::List,
        NativeId::MapPut
        | NativeId::MapGet
        | NativeId::MapContainsKey
        | NativeId::MapRemove
        | NativeId::MapKeys
        | NativeId::MapValues
        | NativeId::MapClear
        | NativeId::MapCount => Family::Dict,
        NativeId::SetAdd
        | NativeId::SetContains
        | NativeId::SetRemove
        | NativeId::SetToList
        | NativeId::SetClear
        | NativeId::SetCount => Family::Items,
        NativeId::ConsoleReadLine => Family::Line,
        NativeId::FileReadAllText
        | NativeId::FileWriteAllText
        | NativeId::FileAppendAllText
        | NativeId::FileExists
        | NativeId::FileDelete
        | NativeId::FileReadAllLines => Family::File,
        _ => Family::Text,
    }
}

/// What a native function does with its arguments.
pub open spec fn native_effect(
    module: Module,
    s: StoreModel,
    w: Answers,
    id: NativeId,
    args: Seq<Value>,
) -> (Effect, StoreModel) {
    match family(id) {
        Family::Make => made(
            s,
            Boxed::Thing,
            match id {
                NativeId::MapNew => ObjectModel::Dict(Seq::empty()),
                NativeId::SetNew => ObjectModel::ItemSet(Seq::empty()),
                _ => ObjectModel::Array(Seq::empty()),
            },
        ),
        Family::List => match list_in(s.heap, args[0]) {
            None => (wrong_receiver(id, args[0]), s),
            Some((h, xs)) => list_effect(module, s, w, id, args, h, xs),
        },
        Family::Dict => match dict_in(s.heap, args[0]) {
            None => (wrong_receiver(id, args[0]), s),
            Some((h, es)) => dict_effect(module, s, w, id, args, h, es),
        },
        Family::Items => match set_in(s.heap, args[0]) {
            None => (wrong_receiver(id, args[0]), s),
            Some((h, xs)) => set_effect(module, s, id, args, h, xs),
        },
        Family::Text => match str_of(s.heap, id, args[0]) {
            Err(e) => (e, s),
            Ok(t) => text_effect(module, s, w, id, args, t),
        },
        Family::Line => line_effect(s, w),
        Family::File => match str_of(s.heap, id, args[0]) {
            Err(e) => (e, s),
            Ok(path) => if writes(id) {
                match str_of(s.heap, id, args[1]) {
                    Err(e) => (e, s),
                    Ok(t) => file_effect(s, w, id, path, t),
                }
            } else {
                file_effect(s, w, id, path, Seq::empty())
            },
        },
    }
}

impl Store {
    /// Execute the native function `id` with its arguments.
    pub fn exec_native(&mut self, module: &Module, world: &World, id: NativeId, args: &Vec<Value>) -> (r:
        Applied)
        requires
            store_ok(old(self)@),
            args@.len() == native_arity(id),
        ensures
            store_ok(final(self)@),
            (r@, final(self)@) == native_effect(*module, old(self)@, world@, id, args@),
    {
        match family_of(id) {
            Family::Make => {
                let o: AuraObject = match id {
                    NativeId::MapNew => AuraObject::Dict { entries: Vec::new() },
                    NativeId::SetNew => AuraObject::ItemSet { elements: Vec::new() },
                    _ => AuraObject::Array { elements: Vec::new() },
                };
                self.make(Boxed::Thing, o)
            },
            Family::List => self.list_native(module, world, id, args),
            Family::Dict => self.dict_native(module, world, id, args),
            Family::Items => self.set_native(module, id, args),
            Family::Text => self.text_native(module, world, id, args),
            Family::Line => self.read_line(world),
            Family::File => {
                let path: String = match str_arg(&self.heap, id, args[0]) {
                    Ok(p) => own(p),
                    Err(e) => return e,
                };
                let contents: String = if args.len() > 1 {
                    match str_arg(&self.heap, id, args[1]) {
                        Ok(t) => own(t),
                        Err(e) => return e,
                    }
                } else {
                    String::new()
                };
                proof {
                    reveal_strlit("");
                }
                assert(!writes(id) ==> contents@ =~= Seq::empty());
                self.file_native(world, id, path, contents)
            },
        }
    }
}

} // verus!
