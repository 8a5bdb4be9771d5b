//! The exception model: the closed set of user-exception kinds, the
//! exception value itself, stack frames for tracebacks, and the
//! propagation envelope that separates user exceptions from internal
//! errors.
//!
//! Formatting methods return `String`s whose contents are pinned by
//! spec functions; there is no `Display` machinery here.

use vstd::prelude::*;

use crate::fmt::{append_bool, append_int, append_nat, append_none, append_str_repr, spec_bool_str,
    spec_int_str, spec_nat_str, spec_none_str, spec_str_repr};
use crate::value::Const;

verus! {

/// The closed set of user-visible exception kinds.
#[derive(Clone, Copy, Debug, PartialEq, Eq, Structural)]
pub enum ExcType {
    ValueError,
    TypeError,
    NameError,
    AttributeError,
    IndexError,
    KeyError,
}

impl ExcType {
    /// The display name of the kind.
    pub open spec fn spec_str(self) -> Seq<char> {
        match self {
            ExcType::ValueError => "ValueError"@,
            ExcType::TypeError => "TypeError"@,
            ExcType::NameError => "NameError"@,
            ExcType::AttributeError => "AttributeError"@,
            ExcType::IndexError => "IndexError"@,
            ExcType::KeyError => "KeyError"@,
        }
    }

    /// The display name of the kind.
    pub fn str(self) -> (r: &'static str)
        ensures
            r@ == self.spec_str(),
    {
        match self {
            ExcType::ValueError => "ValueError",
            ExcType::TypeError => "TypeError",
            ExcType::NameError => "NameError",
            ExcType::AttributeError => "AttributeError",
            ExcType::IndexError => "IndexError",
            ExcType::KeyError => "KeyError",
        }
    }
}

/// The informal (`str`) form of a constant: strings stand for
/// themselves, unquoted.
pub open spec fn spec_const_str(c: Const) -> Seq<char> {
    match c {
        Const::PyNone => spec_none_str(),
        Const::Bool(b) => spec_bool_str(b),
        Const::Int(i) => spec_int_str(i as int),
        Const::Str(s) => s@,
    }
}

/// The `repr` form of a constant: strings are quoted and escaped.
pub open spec fn spec_const_repr(c: Const) -> Seq<char> {
    match c {
        Const::PyNone => spec_none_str(),
        Const::Bool(b) => spec_bool_str(b),
        Const::Int(i) => spec_int_str(i as int),
        Const::Str(s) => spec_str_repr(s@),
    }
}

/// The reprs of `args`, joined with `", "`.
pub open spec fn spec_args_reprs(args: Seq<Const>) -> Seq<char>
    decreases args.len(),
{
    if args.len() == 0 {
        Seq::empty()
    } else if args.len() == 1 {
        spec_const_repr(args[0])
    } else {
        spec_const_repr(args[0]) + ", "@ + spec_args_reprs(args.skip(1))
    }
}

/// The message body of an exception: nothing for no arguments, the
/// plain text of a single argument, and a parenthesised tuple of
/// reprs for several arguments.
pub open spec fn spec_exc_message(args: Seq<Const>) -> Seq<char> {
    if args.len() == 0 {
        Seq::empty()
    } else if args.len() == 1 {
        spec_const_str(args[0])
    } else {
        seq!['('] + spec_args_reprs(args) + seq![')']
    }
}

/// The reprs of the first `k` elements of `args`, each followed by
/// `", "`.
pub open spec fn spec_reprs_prefix(args: Seq<Const>, k: int) -> Seq<char>
    decreases k,
{
    if k <= 0 {
        Seq::empty()
    } else {
        spec_reprs_prefix(args, k - 1) + spec_const_repr(args[k - 1]) + ", "@
    }
}

/// A prefix of joined reprs, shifted past the first element.
proof fn lemma_reprs_prefix_shift(args: Seq<Const>, k: int)
    requires
        0 <= k,
        k + 1 <= args.len(),
    ensures
        spec_reprs_prefix(args, k + 1) == spec_const_repr(args[0]) + ", "@ + spec_reprs_prefix(
            args.skip(1),
            k,
        ),
    decreases k,
{
    if k == 0 {
        assert(spec_reprs_prefix(args, 0) == Seq::<char>::empty());
        assert(spec_reprs_prefix(args.skip(1), 0) == Seq::<char>::empty());
        assert(spec_reprs_prefix(args, 1) =~= spec_const_repr(args[0]) + ", "@
            + spec_reprs_prefix(args.skip(1), 0));
    } else {
        lemma_reprs_prefix_shift(args, k - 1);
        assert(args.skip(1)[k - 1] == args[k]);
        assert(spec_reprs_prefix(args, k + 1) =~= spec_const_repr(args[0]) + ", "@
            + spec_reprs_prefix(args.skip(1), k));
    }
}

/// The joined reprs of a non-empty vector are the prefix of all but
/// the last element followed by the repr of the last element.
proof fn lemma_args_reprs_as_prefix(args: Seq<Const>)
    requires
        args.len() >= 1,
    ensures
        spec_args_reprs(args) == spec_reprs_prefix(args, args.len() - 1) + spec_const_repr(
            args.last(),
        ),
    decreases args.len(),
{
    if args.len() == 1 {
        assert(spec_args_reprs(args) =~= spec_reprs_prefix(args, 0) + spec_const_repr(
            args.last(),
        ));
    } else {
        lemma_args_reprs_as_prefix(args.skip(1));
        lemma_reprs_prefix_shift(args, args.len() - 2);
        assert(args.skip(1).last() == args.last());
        assert(spec_args_reprs(args) =~= spec_reprs_prefix(args, args.len() - 1)
            + spec_const_repr(args.last()));
    }
}

/// Appends the reprs of `args`, joined with `", "`.
pub fn append_args_reprs(out: &mut String, args: &Vec<Const>)
    ensures
        final(out)@ == old(out)@ + spec_args_reprs(args@),
{
    let n = args.len();
    let mut i: usize = 0;
    while i < n
        invariant
            n == args@.len(),
            i <= n,
            i < n || n == 0 ==> out@ == old(out)@ + spec_reprs_prefix(args@, i as int),
            i == n && n > 0 ==> out@ == old(out)@ + spec_reprs_prefix(args@, n - 1)
                + spec_const_repr(args@[n - 1]),
        decreases n - i,
    {
        append_const_repr(out, &args[i]);
        if i + 1 < n {
            out.append(", ");
            proof {
                assert(out@ =~= old(out)@ + spec_reprs_prefix(args@, i + 1));
            }
        }
        i = i + 1;
    }
    proof {
        if n == 0 {
            assert(out@ =~= old(out)@ + spec_args_reprs(args@));
        } else {
            lemma_args_reprs_as_prefix(args@);
            assert(args@.last() == args@[n - 1]);
            assert(out@ =~= old(out)@ + spec_args_reprs(args@));
        }
    }
}

/// Appends the `str` form of a constant.
pub fn append_const_str(out: &mut String, c: &Const)
    ensures
        final(out)@ == old(out)@ + spec_const_str(*c),
{
    match c {
        Const::PyNone => append_none(out),
        Const::Bool(b) => append_bool(out, *b),
        Const::Int(i) => append_int(out, *i),
        Const::Str(s) => out.append(s.as_str()),
    }
}

/// Appends the `repr` form of a constant.
pub fn append_const_repr(out: &mut String, c: &Const)
    ensures
        final(out)@ == old(out)@ + spec_const_repr(*c),
{
    match c {
        Const::PyNone => append_none(out),
        Const::Bool(b) => append_bool(out, *b),
        Const::Int(i) => append_int(out, *i),
        Const::Str(s) => append_str_repr(out, s.as_str()),
    }
}

/// A user exception: a kind and its argument vector (typically a
/// single string).
#[derive(Clone, Debug)]
pub struct Exception {
    pub exc_type: ExcType,
    pub args: Vec<Const>,
}

impl Exception {
    /// A fresh exception with one string argument.
    pub fn new(s: String, exc_type: ExcType) -> (e: Exception)
        ensures
            e.exc_type == exc_type,
            e.args@.len() == 1,
            e.args@[0] == Const::Str(s),
    {
        let mut args: Vec<Const> = Vec::new();
        args.push(Const::Str(s));
        Exception { exc_type, args }
    }

    /// A fresh exception carrying the given argument vector.
    pub fn call(args: Vec<Const>, exc_type: ExcType) -> (e: Exception)
        ensures
            e.exc_type == exc_type,
            e.args == args,
    {
        Exception { exc_type, args }
    }

    /// The message body, without the kind prefix.
    pub fn message(&self) -> (r: String)
        ensures
            r@ == spec_exc_message(self.args@),
    {
        let mut out = String::new();
        if self.args.len() == 0 {
        } else if self.args.len() == 1 {
            append_const_str(&mut out, &self.args[0]);
        } else {
            out.append("(");
            append_args_reprs(&mut out, &self.args);
            out.append(")");
            proof {
                reveal_strlit("(");
                reveal_strlit(")");
                assert(out@ =~= seq!['('] + spec_args_reprs(self.args@) + seq![')']);
            }
        }
        proof {
            if self.args@.len() == 0 {
                assert(out@ =~= spec_exc_message(self.args@));
            } else if self.args@.len() == 1 {
                assert(out@ =~= spec_exc_message(self.args@));
            }
        }
        out
    }

    /// The message prefixed with the kind, as a traceback's last line
    /// shows it: `Kind: message`.
    pub fn str_with_type(&self) -> (r: String)
        ensures
            r@ == self.exc_type.spec_str() + ": "@ + spec_exc_message(self.args@),
    {
        let mut out = String::new();
        out.append(self.exc_type.str());
        out.append(": ");
        let msg = self.message();
        out.append(msg.as_str());
        out
    }

    /// The display name of the exception's kind.
    pub fn type_str(&self) -> (r: &'static str)
        ensures
            r@ == self.exc_type.spec_str(),
    {
        self.exc_type.str()
    }

    /// The repr of the exception: `Kind(arg_repr, ...)`.
    pub fn repr(&self) -> (r: String)
        ensures
            r@ == self.exc_type.spec_str() + seq!['('] + spec_args_reprs(self.args@) + seq![')'],
    {
        let mut out = String::new();
        out.append(self.exc_type.str());
        out.append("(");
        append_args_reprs(&mut out, &self.args);
        out.append(")");
        proof {
            reveal_strlit("(");
            reveal_strlit(")");
            assert(out@ =~= self.exc_type.spec_str() + seq!['('] + spec_args_reprs(self.args@)
                + seq![')']);
        }
        out
    }

    /// Wraps the exception in a raise envelope carrying `frame`.
    pub fn with_frame(self, frame: StackFrame) -> (r: ExceptionRaise)
        ensures
            r.exc == self,
            r.frame matches Some(f) && f == frame,
    {
        ExceptionRaise { exc: self, frame: Some(frame) }
    }

    /// Wraps the exception in a raise envelope whose single frame
    /// records only a source position.
    pub fn with_position(self, position: CodeRange) -> (r: ExceptionRaise)
        ensures
            r.exc == self,
            r.frame matches Some(f) && f.position == position && f.frame_name is None && f.parent
                is None,
    {
        ExceptionRaise {
            exc: self,
            frame: Some(StackFrame::from_position(position)),
        }
    }
}

/// A source span: file name plus start and end line/column.
#[derive(Debug)]
pub struct CodeRange {
    pub file: String,
    pub start_line: u32,
    pub start_col: u32,
    pub end_line: u32,
    pub end_col: u32,
}

/// Two spans are equivalent when every field agrees (file names by
/// their text).
pub open spec fn code_range_eqv(a: CodeRange, b: CodeRange) -> bool {
    a.file@ == b.file@ && a.start_line == b.start_line && a.start_col == b.start_col && a.end_line
        == b.end_line && a.end_col == b.end_col
}

impl Clone for CodeRange {
    /// An equivalent copy of the span.
    fn clone(&self) -> (r: Self)
        ensures
            code_range_eqv(r, *self),
    {
        CodeRange {
            file: self.file.clone(),
            start_line: self.start_line,
            start_col: self.start_col,
            end_line: self.end_line,
            end_col: self.end_col,
        }
    }
}

impl CodeRange {
    /// The compact rendering used in summaries:
    /// `start_line:start_col - end_line:end_col`.
    pub open spec fn spec_compact(self) -> Seq<char> {
        spec_nat_str(self.start_line as nat) + seq![':'] + spec_nat_str(self.start_col as nat)
            + " - "@ + spec_nat_str(self.end_line as nat) + seq![':'] + spec_nat_str(
            self.end_col as nat,
        )
    }

    /// Appends the compact rendering of the span.
    pub fn append_compact(&self, out: &mut String)
        ensures
            final(out)@ == old(out)@ + self.spec_compact(),
    {
        append_nat(out, self.start_line as u64);
        out.append(":");
        append_nat(out, self.start_col as u64);
        out.append(" - ");
        append_nat(out, self.end_line as u64);
        out.append(":");
        append_nat(out, self.end_col as u64);
        proof {
            reveal_strlit(":");
            assert(final(out)@ =~= old(out)@ + self.spec_compact());
        }
    }
}

/// One frame of a traceback: a source position, an optional frame
/// name, and a link to the frame it was called from.
#[derive(Debug)]
pub struct StackFrame {
    pub position: CodeRange,
    pub frame_name: Option<String>,
    pub parent: Option<Box<StackFrame>>,
}

/// Two frames are equivalent when their positions, names, and whole
/// parent chains agree (strings by their text).
pub open spec fn frame_eqv(a: StackFrame, b: StackFrame) -> bool
    decreases a,
{
    code_range_eqv(a.position, b.position) && (match (a.frame_name, b.frame_name) {
        (Some(x), Some(y)) => x@ == y@,
        (None, None) => true,
        _ => false,
    }) && (match (a.parent, b.parent) {
        (Some(p), Some(q)) => frame_eqv(*p, *q),
        (None, None) => true,
        _ => false,
    })
}

/// Equivalent frames render to the same traceback text.
pub proof fn lemma_frame_eqv_chain(a: StackFrame, b: StackFrame)
    requires
        frame_eqv(a, b),
    ensures
        spec_frame_chain(a) == spec_frame_chain(b),
    decreases a,
{
    if a.parent is Some {
        lemma_frame_eqv_chain(*a.parent.unwrap(), *b.parent.unwrap());
    }
}

impl Clone for StackFrame {
    /// An equivalent copy of the frame and its parent chain.
    fn clone(&self) -> (r: Self)
        ensures
            frame_eqv(r, *self),
        decreases *self,
    {
        StackFrame {
            position: self.position.clone(),
            frame_name: match &self.frame_name {
                Some(n) => Some(n.clone()),
                None => None,
            },
            parent: match &self.parent {
                Some(p) => Some(Box::new((**p).clone())),
                None => None,
            },
        }
    }
}

/// The traceback line of a single frame:
/// `  File "file", line N, in name` followed by a newline, where a
/// frame without a name is shown as `<module>`.
pub open spec fn spec_frame_line(frame: StackFrame) -> Seq<char> {
    "  File \""@ + frame.position.file@ + "\", line "@ + spec_nat_str(
        frame.position.start_line as nat,
    ) + ", in "@ + (match frame.frame_name {
        Some(name) => name@,
        None => "<module>"@,
    }) + seq!['\n']
}

/// The traceback rendering of a frame chain, outermost frame first.
pub open spec fn spec_frame_chain(frame: StackFrame) -> Seq<char>
    decreases frame,
{
    match frame.parent {
        Some(parent) => spec_frame_chain(*parent) + spec_frame_line(frame),
        None => spec_frame_line(frame),
    }
}

impl StackFrame {
    /// A named frame at `position` whose caller is `parent`.
    pub fn new(position: &CodeRange, frame_name: &str, parent: Option<&StackFrame>) -> (r:
        StackFrame)
        ensures
            code_range_eqv(r.position, *position),
            r.frame_name matches Some(n) && n@ == frame_name@,
            parent is Some ==> (r.parent matches Some(p) && frame_eqv(*p, *parent.unwrap())),
            parent is None ==> r.parent is None,
    {
        StackFrame {
            position: position.clone(),
            frame_name: Some(String::from_str(frame_name)),
            parent: match parent {
                Some(p) => Some(Box::new(p.clone())),
                None => None,
            },
        }
    }

    /// An anonymous frame that records only a source position.
    pub fn from_position(position: CodeRange) -> (r: StackFrame)
        ensures
            r.position == position,
            r.frame_name is None,
            r.parent is None,
    {
        StackFrame { position, frame_name: None, parent: None }
    }

    /// Appends this frame chain's traceback lines, outermost first.
    pub fn append_chain(&self, out: &mut String)
        ensures
            final(out)@ == old(out)@ + spec_frame_chain(*self),
        decreases *self,
    {
        match &self.parent {
            Some(parent) => {
                parent.append_chain(out);
            },
            None => {},
        }
        out.append("  File \"");
        out.append(self.position.file.as_str());
        out.append("\", line ");
        append_nat(out, self.position.start_line as u64);
        out.append(", in ");
        match &self.frame_name {
            Some(name) => out.append(name.as_str()),
            None => out.append("<module>"),
        }
        out.append("\n");
        proof {
            reveal_strlit("\n");
            assert(final(out)@ =~= old(out)@ + spec_frame_chain(*self));
        }
    }
}

/// A raised user exception together with the frame chain collected so
/// far (the innermost frame is the one stored here; parents are the
/// outer calls).
#[derive(Clone, Debug)]
pub struct ExceptionRaise {
    pub exc: Exception,
    pub frame: Option<StackFrame>,
}

/// The full traceback text of a raise:
/// `Traceback (most recent call last):` on its own line, the frame
/// chain, then `Kind: message`.
pub open spec fn spec_raise_text(r: ExceptionRaise) -> Seq<char> {
    (match r.frame {
        Some(frame) => "Traceback (most recent call last):\n"@ + spec_frame_chain(frame),
        None => Seq::empty(),
    }) + r.exc.exc_type.spec_str() + ": "@ + spec_exc_message(r.exc.args@)
}

impl ExceptionRaise {
    /// The full traceback text, as the embedder shows it to the user.
    pub fn traceback_string(&self) -> (out: String)
        ensures
            out@ == spec_raise_text(*self),
    {
        let mut out = String::new();
        match &self.frame {
            Some(frame) => {
                out.append("Traceback (most recent call last):\n");
                frame.append_chain(&mut out);
            },
            None => {},
        }
        let tail = self.exc.str_with_type();
        out.append(tail.as_str());
        proof {
            assert(out@ =~= spec_raise_text(*self));
        }
        out
    }

    /// A one-line summary: the position of the innermost frame (or
    /// `<no-tb>`) followed by `Kind: message`.
    pub fn summary(&self) -> (out: String)
        ensures
            self.frame matches Some(f) ==> out@ == seq!['('] + f.position.spec_compact() + ") "@
                + self.exc.exc_type.spec_str() + ": "@ + spec_exc_message(self.exc.args@),
            self.frame is None ==> out@ == "(<no-tb>) "@ + self.exc.exc_type.spec_str() + ": "@
                + spec_exc_message(self.exc.args@),
    {
        let mut out = String::new();
        match &self.frame {
            Some(frame) => {
                out.append("(");
                frame.position.append_compact(&mut out);
                out.append(") ");
            },
            None => {
                out.append("(<no-tb>) ");
            },
        }
        let tail = self.exc.str_with_type();
        out.append(tail.as_str());
        proof {
            reveal_strlit("(");
            if self.frame is Some {
                assert(out@ =~= seq!['('] + self.frame.unwrap().position.spec_compact() + ") "@
                    + self.exc.exc_type.spec_str() + ": "@ + spec_exc_message(self.exc.args@));
            } else {
                assert(out@ =~= "(<no-tb>) "@ + self.exc.exc_type.spec_str() + ": "@
                    + spec_exc_message(self.exc.args@));
            }
        }
        out
    }
}

impl From<Exception> for ExceptionRaise {
    /// A raise envelope with no traceback yet.
    fn from(exc: Exception) -> (r: ExceptionRaise) {
        ExceptionRaise { exc, frame: None }
    }
}

impl vstd::std_specs::convert::FromSpecImpl<Exception> for ExceptionRaise {
    open spec fn obeys_from_spec() -> bool {
        true
    }

    open spec fn from_spec(exc: Exception) -> ExceptionRaise {
        ExceptionRaise { exc, frame: None }
    }
}

/// Internal errors: implementer bugs that are surfaced to the embedder
/// and are never catchable by user code.
#[derive(Clone, Debug)]
pub enum InternalRunError {
    Error(String),
    TodoError(String),
    Undefined(String),
}

/// The display text of an internal error.
pub open spec fn spec_internal_text(e: InternalRunError) -> Seq<char> {
    match e {
        InternalRunError::Error(s) => "Internal Error: "@ + s@,
        InternalRunError::TodoError(s) => "Internal Error TODO: "@ + s@,
        InternalRunError::Undefined(s) => if s@.len() == 0 {
            "Internal Error: accessing undefined object"@
        } else {
            "Internal Error: accessing undefined object `"@ + s@ + seq!['`']
        },
    }
}

impl InternalRunError {
    /// The display text of the error.
    pub fn message(&self) -> (out: String)
        ensures
            out@ == spec_internal_text(*self),
    {
        let mut out = String::new();
        match self {
            InternalRunError::Error(s) => {
                out.append("Internal Error: ");
                out.append(s.as_str());
            },
            InternalRunError::TodoError(s) => {
                out.append("Internal Error TODO: ");
                out.append(s.as_str());
            },
            InternalRunError::Undefined(s) => {
                if s.as_str().unicode_len() == 0 {
                    out.append("Internal Error: accessing undefined object");
                } else {
                    out.append("Internal Error: accessing undefined object `");
                    out.append(s.as_str());
                    out.append("`");
                }
            },
        }
        proof {
            reveal_strlit("`");
            assert(out@ =~= spec_internal_text(*self));
        }
        out
    }
}

/// A run error that is a bare user exception of kind `ty` with the
/// single string argument `msg` and no traceback yet.
pub open spec fn spec_simple_exc(e: RunError, ty: ExcType, msg: Seq<char>) -> bool {
    &&& e matches RunError::Exc(r)
    &&& r.frame is None
    &&& r.exc.exc_type == ty
    &&& r.exc.args@.len() == 1
    &&& r.exc.args@[0] matches Const::Str(s)
    &&& s@ == msg
}

/// A run error carrying one string argument, from a literal message.
pub fn simple_exc(ty: ExcType, msg: &str) -> (e: RunError)
    ensures
        spec_simple_exc(e, ty, msg@),
{
    let exc = Exception::new(String::from_str(msg), ty);
    RunError::Exc(ExceptionRaise { exc, frame: None })
}

/// A run error carrying one string argument, from a built message.
pub fn simple_exc_string(ty: ExcType, msg: String) -> (e: RunError)
    ensures
        spec_simple_exc(e, ty, msg@),
{
    let exc = Exception::new(msg, ty);
    RunError::Exc(ExceptionRaise { exc, frame: None })
}

/// An internal error (an implementer bug surfaced to the embedder),
/// from a literal message.
pub fn simple_internal(msg: &str) -> (e: RunError)
    ensures
        e matches RunError::Internal(InternalRunError::Error(s)) && s@ == msg@,
{
    RunError::Internal(InternalRunError::Error(String::from_str(msg)))
}

/// The propagation envelope of every fallible runtime operation: a
/// user exception (catchable in principle) or an internal error
/// (an implementer bug, never catchable).
#[derive(Clone, Debug)]
pub enum RunError {
    Internal(InternalRunError),
    Exc(ExceptionRaise),
}

/// The display text of a run error.
pub open spec fn spec_run_error_text(e: RunError) -> Seq<char> {
    match e {
        RunError::Internal(i) => spec_internal_text(i),
        RunError::Exc(r) => spec_raise_text(r),
    }
}

impl RunError {
    /// The display text of the error.
    pub fn message(&self) -> (out: String)
        ensures
            out@ == spec_run_error_text(*self),
    {
        match self {
            RunError::Internal(i) => i.message(),
            RunError::Exc(r) => r.traceback_string(),
        }
    }
}

impl From<InternalRunError> for RunError {
    /// Wraps an internal error in the envelope.
    fn from(e: InternalRunError) -> (r: RunError) {
        RunError::Internal(e)
    }
}

impl vstd::std_specs::convert::FromSpecImpl<InternalRunError> for RunError {
    open spec fn obeys_from_spec() -> bool {
        true
    }

    open spec fn from_spec(e: InternalRunError) -> RunError {
        RunError::Internal(e)
    }
}

impl From<ExceptionRaise> for RunError {
    /// Wraps a raise envelope in the error envelope.
    fn from(e: ExceptionRaise) -> (r: RunError) {
        RunError::Exc(e)
    }
}

impl vstd::std_specs::convert::FromSpecImpl<ExceptionRaise> for RunError {
    open spec fn obeys_from_spec() -> bool {
        true
    }

    open spec fn from_spec(e: ExceptionRaise) -> RunError {
        RunError::Exc(e)
    }
}

impl From<Exception> for RunError {
    /// Wraps a bare exception, with no traceback yet, in the error
    /// envelope.
    fn from(exc: Exception) -> (r: RunError) {
        RunError::Exc(ExceptionRaise { exc, frame: None })
    }
}

impl vstd::std_specs::convert::FromSpecImpl<Exception> for RunError {
    open spec fn obeys_from_spec() -> bool {
        true
    }

    open spec fn from_spec(exc: Exception) -> RunError {
        RunError::Exc(ExceptionRaise { exc, frame: None })
    }
}

} // verus!
