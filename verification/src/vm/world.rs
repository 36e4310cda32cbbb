//! What passes between the machine and its surroundings: questions that only
//! the surroundings can answer, and errors.

use crate::arith::{answer_from, find_answer, FloatAsk, FloatFact};
use crate::bytecode::{ClassId, MethodId};
use crate::text::{cat2, cat3, cat4, dec, dec_u64, own, same};
use crate::vm::heap::HeapError;
use crate::vm::value::{GcRef, Value};
use vstd::prelude::*;

verus! {

/// A question to the surroundings.
#[derive(Debug)]
pub enum Ask {
    /// The result of a float operation.
    Float(FloatAsk),
    /// A float, given by its bits, as text.
    FloatText(u64),
    /// The float that a text denotes.
    ParseFloat(String),
    /// A line of input.
    ReadLine,
    /// The contents of a file.
    ReadFile(String),
    /// Replace the contents of a file.
    WriteFile(String, String),
    /// Add to the contents of a file.
    AppendFile(String, String),
    /// Whether a file exists.
    FileExists(String),
    /// Delete a file.
    DeleteFile(String),
}

/// A question by value.
#[verifier::ext_equal]
pub ghost enum Question {
    /// The result of a float operation.
    Float(FloatAsk),
    /// A float as text.
    FloatText(u64),
    /// The float that a text denotes.
    ParseFloat(Seq<char>),
    /// A line of input.
    ReadLine,
    /// The contents of a file.
    ReadFile(Seq<char>),
    /// Replace the contents of a file.
    WriteFile(Seq<char>, Seq<char>),
    /// Add to the contents of a file.
    AppendFile(Seq<char>, Seq<char>),
    /// Whether a file exists.
    FileExists(Seq<char>),
    /// Delete a file.
    DeleteFile(Seq<char>),
}

impl View for Ask {
    type V = Question;

    open spec fn view(&self) -> Question {
        match self {
            Ask::Float(a) => Question::Float(*a),
            Ask::FloatText(b) => Question::FloatText(*b),
            Ask::ParseFloat(s) => Question::ParseFloat(s@),
            Ask::ReadLine => Question::ReadLine,
            Ask::ReadFile(p) => Question::ReadFile(p@),
            Ask::WriteFile(p, s) => Question::WriteFile(p@, s@),
            Ask::AppendFile(p, s) => Question::AppendFile(p@, s@),
            Ask::FileExists(p) => Question::FileExists(p@),
            Ask::DeleteFile(p) => Question::DeleteFile(p@),
        }
    }
}

/// What input or output came to.
#[derive(Debug)]
pub enum Reply {
    /// A text was read.
    Text(String),
    /// There is nothing left to read.
    End,
    /// It was done.
    Done,
    /// Whether it is so.
    Flag(bool),
    /// It failed, for this reason.
    Failed(String),
}

/// What input or output came to, by value.
#[verifier::ext_equal]
pub ghost enum ReplyModel {
    /// A text was read.
    Text(Seq<char>),
    /// There is nothing left to read.
    End,
    /// It was done.
    Done,
    /// Whether it is so.
    Flag(bool),
    /// It failed.
    Failed(Seq<char>),
}

impl View for Reply {
    type V = ReplyModel;

    open spec fn view(&self) -> ReplyModel {
        match self {
            Reply::Text(s) => ReplyModel::Text(s@),
            Reply::End => ReplyModel::End,
            Reply::Done => ReplyModel::Done,
            Reply::Flag(b) => ReplyModel::Flag(*b),
            Reply::Failed(s) => ReplyModel::Failed(s@),
        }
    }
}

/// What the surroundings have answered: facts about floats, which hold once and
/// for all, and the outcome of the input or output that was asked for last.
#[derive(Debug)]
pub struct World {
    /// Float operations.
    pub floats: Vec<FloatFact>,
    /// Floats as text.
    pub float_texts: Vec<(u64, String)>,
    /// Texts read as floats; a text that denotes none has none.
    pub parsed: Vec<(String, Option<u64>)>,
    /// Input or output.
    pub reply: Option<Reply>,
}

/// The answers by value.
#[verifier::ext_equal]
pub ghost struct Answers {
    /// Float operations.
    pub floats: Seq<FloatFact>,
    /// Floats as text.
    pub float_texts: Seq<(u64, Seq<char>)>,
    /// Texts read as floats.
    pub parsed: Seq<(Seq<char>, Option<u64>)>,
    /// Input or output.
    pub reply: Option<ReplyModel>,
}

impl View for World {
    type V = Answers;

    open spec fn view(&self) -> Answers {
        Answers {
            floats: self.floats@,
            float_texts: Seq::new(
                self.float_texts@.len(),
                |i: int| (self.float_texts@[i].0, self.float_texts@[i].1@),
            ),
            parsed: Seq::new(
                self.parsed@.len(),
                |i: int| (self.parsed@[i].0@, self.parsed@[i].1),
            ),
            reply: match self.reply {
                Some(r) => Some(r@),
                None => None,
            },
        }
    }
}

/// The text of a float among the answers from `i` on.
pub open spec fn text_from(ts: Seq<(u64, Seq<char>)>, bits: u64, i: int) -> Option<Seq<char>>
    decreases ts.len() - i,
{
    if i < 0 || i >= ts.len() {
        None
    } else if ts[i].0 == bits {
        Some(ts[i].1)
    } else {
        text_from(ts, bits, i + 1)
    }
}

/// A float as text, or the question.
pub open spec fn float_text(w: Answers, bits: u64) -> Result<Seq<char>, Question> {
    match text_from(w.float_texts, bits, 0) {
        Some(s) => Ok(s),
        None => Err(Question::FloatText(bits)),
    }
}

/// The float that a text denotes among the answers from `i` on.
pub open spec fn parsed_from(ps: Seq<(Seq<char>, Option<u64>)>, s: Seq<char>, i: int) -> Option<
    Option<u64>,
>
    decreases ps.len() - i,
{
    if i < 0 || i >= ps.len() {
        None
    } else if ps[i].0 == s {
        Some(ps[i].1)
    } else {
        parsed_from(ps, s, i + 1)
    }
}

/// The result of a float operation, or the question.
pub open spec fn float_result(w: Answers, ask: FloatAsk) -> Result<u64, Question> {
    match answer_from(w.floats, ask, 0) {
        Some(b) => Ok(b),
        None => Err(Question::Float(ask)),
    }
}

/// A text or a question, by value.
pub open spec fn text_or_ask(r: Result<String, Ask>) -> Result<Seq<char>, Question> {
    match r {
        Ok(s) => Ok(s@),
        Err(a) => Err(a@),
    }
}

/// Bits or a question, by value.
pub open spec fn bits_or_ask(r: Result<u64, Ask>) -> Result<u64, Question> {
    match r {
        Ok(b) => Ok(b),
        Err(a) => Err(a@),
    }
}

impl World {
    /// A float as text, or the question.
    pub fn text_of(&self, bits: u64) -> (r: Result<String, Ask>)
        ensures
            text_or_ask(r) == float_text(self@, bits),
    {
        let ghost ts = self@.float_texts;
        let mut i: usize = 0;
        while i < self.float_texts.len()
            invariant
                i <= self.float_texts@.len(),
                ts == self@.float_texts,
                text_from(ts, bits, 0) == text_from(ts, bits, i as int),
            decreases self.float_texts.len() - i,
        {
            assert(ts[i as int] == (self.float_texts@[i as int].0, self.float_texts@[i as int].1@));
            if self.float_texts[i].0 == bits {
                return Ok(self.float_texts[i].1.clone());
            }
            i = i + 1;
        }
        Err(Ask::FloatText(bits))
    }

    /// The float that a text denotes, if that is known.
    pub fn parse_of(&self, s: &str) -> (r: Option<Option<u64>>)
        ensures
            r == parsed_from(self@.parsed, s@, 0),
    {
        let ghost ps = self@.parsed;
        let mut i: usize = 0;
        while i < self.parsed.len()
            invariant
                i <= self.parsed@.len(),
                ps == self@.parsed,
                parsed_from(ps, s@, 0) == parsed_from(ps, s@, i as int),
            decreases self.parsed.len() - i,
        {
            assert(ps[i as int] == (self.parsed@[i as int].0@, self.parsed@[i as int].1));
            if same(self.parsed[i].0.as_str(), s) {
                return Some(self.parsed[i].1);
            }
            i = i + 1;
        }
        None
    }

    /// The result of a float operation, or the question.
    pub fn float(&self, ask: FloatAsk) -> (r: Result<u64, Ask>)
        ensures
            bits_or_ask(r) == float_result(self@, ask),
    {
        match find_answer(&self.floats, ask) {
            Some(b) => Ok(b),
            None => Err(Ask::Float(ask)),
        }
    }
}

/// Errors raised during VM execution.
#[derive(Debug)]
pub enum VmError {
    /// The module has no entrypoint.
    NoEntrypoint,
    /// Unknown method id.
    UnknownMethod(MethodId),
    /// Unknown class id.
    UnknownClass(ClassId),
    /// Stack underflow.
    StackUnderflow,
    /// Type mismatch at runtime.
    TypeMismatch {
        /// What was expected.
        expected: &'static str,
        /// What was there.
        got: String,
    },
    /// Heap access failure.
    Heap(HeapError),
    /// Division by zero.
    DivideByZero,
    /// Generic runtime error.
    Runtime(String),
    /// Integer overflow detected (only when overflow checking is enabled).
    Overflow,
}

/// An error by value.
#[verifier::ext_equal]
pub ghost enum Fault {
    /// No entrypoint.
    NoEntrypoint,
    /// Unknown method.
    UnknownMethod(MethodId),
    /// Unknown class.
    UnknownClass(ClassId),
    /// Stack underflow.
    StackUnderflow,
    /// Type mismatch: what was expected, and what was there.
    TypeMismatch(Seq<char>, Seq<char>),
    /// Heap access failure.
    Heap(HeapError),
    /// Division by zero.
    DivideByZero,
    /// Runtime error.
    Runtime(Seq<char>),
    /// Overflow.
    Overflow,
}

impl View for VmError {
    type V = Fault;

    open spec fn view(&self) -> Fault {
        match self {
            VmError::NoEntrypoint => Fault::NoEntrypoint,
            VmError::UnknownMethod(m) => Fault::UnknownMethod(*m),
            VmError::UnknownClass(c) => Fault::UnknownClass(*c),
            VmError::StackUnderflow => Fault::StackUnderflow,
            VmError::TypeMismatch { expected, got } => Fault::TypeMismatch(expected@, got@),
            VmError::Heap(e) => Fault::Heap(*e),
            VmError::DivideByZero => Fault::DivideByZero,
            VmError::Runtime(s) => Fault::Runtime(s@),
            VmError::Overflow => Fault::Overflow,
        }
    }
}

/// The text of an error.
pub open spec fn fault_text(f: Fault) -> Seq<char> {
    match f {
        Fault::NoEntrypoint => "no entrypoint defined"@,
        Fault::UnknownMethod(m) => "unknown method MethodId("@ + dec(m.0 as nat) + ")"@,
        Fault::UnknownClass(c) => "unknown class ClassId("@ + dec(c.0 as nat) + ")"@,
        Fault::StackUnderflow => "stack underflow"@,
        Fault::TypeMismatch(expected, got) => "type mismatch: expected "@ + expected + ", got "@
            + got,
        Fault::Heap(HeapError::InvalidRef(r)) => "heap error: invalid heap reference GcRef("@ + dec(
            r.0 as nat,
        ) + ")"@,
        Fault::DivideByZero => "divide by zero"@,
        Fault::Runtime(s) => "runtime error: "@ + s,
        Fault::Overflow => "integer overflow"@,
    }
}

impl VmError {
    /// The text of the error.
    pub fn message(&self) -> (r: String)
        ensures
            r@ == fault_text(self@),
    {
        match self {
            VmError::NoEntrypoint => own("no entrypoint defined"),
            VmError::UnknownMethod(m) => {
                let n: String = dec_u64(m.0 as u64);
                cat3("unknown method MethodId(", n.as_str(), ")")
            },
            VmError::UnknownClass(c) => {
                let n: String = dec_u64(c.0 as u64);
                cat3("unknown class ClassId(", n.as_str(), ")")
            },
            VmError::StackUnderflow => own("stack underflow"),
            VmError::TypeMismatch { expected, got } => cat4(
                "type mismatch: expected ",
                expected,
                ", got ",
                got.as_str(),
            ),
            VmError::Heap(e) => match e {
                HeapError::InvalidRef(r) => {
                    let n: String = dec_u64(r.0 as u64);
                    cat3("heap error: invalid heap reference GcRef(", n.as_str(), ")")
                },
            },
            VmError::DivideByZero => own("divide by zero"),
            VmError::Runtime(s) => cat2("runtime error: ", s.as_str()),
            VmError::Overflow => own("integer overflow"),
        }
    }
}

/// What came of an operation.
#[derive(Debug)]
pub enum Applied {
    /// A value.
    Value(Value),
    /// Nothing.
    Nothing,
    /// An exception was thrown.
    Thrown(Value),
    /// An error.
    Failed(VmError),
    /// A method is to be run with these arguments.
    Invoke(MethodId, Vec<Value>),
    /// A question is to be answered first; nothing has changed.
    Ask(Ask),
    /// A text is to be shown.
    Show(String),
}

/// What came of an operation, by value.
#[verifier::ext_equal]
pub ghost enum Effect {
    /// A value.
    Value(Value),
    /// Nothing.
    Nothing,
    /// An exception.
    Thrown(Value),
    /// An error.
    Failed(Fault),
    /// A method to be run.
    Invoke(MethodId, Seq<Value>),
    /// A question.
    Ask(Question),
    /// A text.
    Show(Seq<char>),
}

impl View for Applied {
    type V = Effect;

    open spec fn view(&self) -> Effect {
        match self {
            Applied::Value(v) => Effect::Value(*v),
            Applied::Nothing => Effect::Nothing,
            Applied::Thrown(v) => Effect::Thrown(*v),
            Applied::Failed(e) => Effect::Failed(e@),
            Applied::Invoke(m, args) => Effect::Invoke(*m, args@),
            Applied::Ask(a) => Effect::Ask(a@),
            Applied::Show(s) => Effect::Show(s@),
        }
    }
}

} // verus!
