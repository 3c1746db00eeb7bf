//! The command that views and edits the line buffer.

use vstd::prelude::*;
use vstd::utf8::encode_utf8;
use crate::call::Call;
use crate::call::CallView;
use crate::command::Command;
use crate::decimal::decimal_digits;
use crate::decimal::to_decimal;
use crate::engine_state::EngineState;
use crate::error::invalid_integer;
use crate::error::ShellError;
use crate::error::ShellErrorView;
use crate::int_parse::parse_int_spec;
use crate::pipeline::PipelineData;
use crate::repl_state::ReplState;
use crate::repl_state::ReplStateView;
use crate::signature::Category;
use crate::signature::FlagView;
use crate::signature::PositionalArgView;
use crate::signature::Signature;
use crate::signature::SignatureView;
use crate::signature::SyntaxShape;
use crate::span::Span;
use crate::stack::Stack;
use crate::value::Type;
use crate::value::Value;
use crate::value::ValueView;

verus! {

/// The command `commandline`: without an argument it gives the line buffer
/// or, with `--cursor`, the position of the cursor; with an argument it
/// replaces the buffer or, by its flags, appends to it, inserts at the
/// cursor or sets the cursor.
#[derive(Clone, Copy, Debug)]
pub struct Commandline;

/// The failure that says that the cursor stands inside a grapheme cluster,
/// so that it has no visual position.
pub open spec fn cursor_off_boundary(span: Span) -> ShellErrorView {
    ShellErrorView::Downstream { msg: "Cursor position isn't on a grapheme boundary"@, span }
}

/// What the command does to the line buffer, and what it gives back, for
/// a call with an argument that is a string.
pub open spec fn edit_spec(repl: ReplStateView, call: CallView, text: Seq<char>, at: Span) -> (
    ReplStateView,
    Result<ValueView, ShellErrorView>,
) {
    let done = Ok(ValueView::Nothing { span: call.head });
    if call.has_flag("cursor"@) {
        match parse_int_spec(encode_utf8(text)) {
            Some(n) => (repl.set_cursor(n as int), done),
            None => (repl, Err(invalid_integer(text, at))),
        }
    } else if call.has_flag("append"@) {
        (repl.append(text), done)
    } else if call.has_flag("insert"@) {
        (repl.insert(text), done)
    } else {
        (repl.replace(text), done)
    }
}

/// What the command gives back for a call without an argument. It leaves
/// the line buffer as it is.
pub open spec fn view_spec(repl: ReplStateView, call: CallView) -> Result<
    ValueView,
    ShellErrorView,
> {
    if call.has_flag("cursor"@) {
        match repl.position() {
            Some(p) => Ok(ValueView::String { val: decimal_digits(p as nat), span: call.head }),
            None => Err(cursor_off_boundary(call.head)),
        }
    } else {
        Ok(ValueView::String { val: repl.buffer, span: call.head })
    }
}

/// The line buffer after the command has run on `call`, and the value or
/// the failure that the command gives back.
pub open spec fn run_spec(repl: ReplStateView, call: CallView) -> (
    ReplStateView,
    Result<ValueView, ShellErrorView>,
) {
    match call.nth(0) {
        Some(ValueView::String { val, span }) => edit_spec(repl, call, val, span),
        Some(other) => (repl, Err(other.cant_convert(Type::String))),
        None => (repl, view_spec(repl, call)),
    }
}

/// Whether what the command handed back is the value or the failure `want`.
pub open spec fn gives(r: Result<PipelineData, ShellError>, want: Result<ValueView, ShellErrorView>) -> bool {
    match (r, want) {
        (Ok(PipelineData::Value(v)), Ok(w)) => v@ == w,
        (Err(e), Err(f)) => e@ == f,
        _ => false,
    }
}

/// What the command accepts: four switches and one optional string.
pub open spec fn commandline_signature() -> SignatureView {
    SignatureView {
        name: "commandline"@,
        usage: Seq::empty(),
        named: seq![
            FlagView {
                long: "cursor"@,
                short: Some('c'),
                arg: None,
                desc: "Set or get the current cursor position"@,
            },
            FlagView {
                long: "append"@,
                short: Some('a'),
                arg: None,
                desc: "appends the string to the end of the buffer"@,
            },
            FlagView {
                long: "insert"@,
                short: Some('i'),
                arg: None,
                desc: "inserts the string into the buffer at the cursor position"@,
            },
            FlagView {
                long: "replace"@,
                short: Some('r'),
                arg: None,
                desc: "replaces the current contents of the buffer (default)"@,
            },
        ],
        required_positional: Seq::empty(),
        optional_positional: seq![
            PositionalArgView {
                name: "cmd"@,
                desc: "the string to perform the operation with"@,
                shape: SyntaxShape::String,
            },
        ],
        rest_positional: None,
        input_output_types: seq![(Type::Nothing, Type::Nothing)],
        category: Category::Core,
    }
}

impl Commandline {
    /// Runs the command on the line buffer itself.
    pub fn run_on(repl: &mut ReplState, call: &Call) -> (r: Result<PipelineData, ShellError>)
        requires
            old(repl)@.wf(),
        ensures
            final(repl)@.wf(),
            final(repl)@ == run_spec(old(repl)@, call@).0,
            gives(r, run_spec(old(repl)@, call@).1),
    {
        match call.opt(0) {
            Some(cmd) => {
                let text = match cmd.as_string() {
                    Ok(text) => text,
                    Err(e) => {
                        return Err(e);
                    },
                };
                if call.has_flag("cursor") {
                    match repl.set_cursor_from_str(text.as_str(), cmd.span()) {
                        Ok(()) => {},
                        Err(e) => {
                            return Err(e);
                        },
                    }
                } else if call.has_flag("append") {
                    repl.append(text.as_str());
                } else if call.has_flag("insert") {
                    repl.insert(text.as_str());
                } else {
                    repl.replace(text);
                }
                Ok(PipelineData::Value(Value::Nothing { span: call.head }))
            },
            None => {
                if call.has_flag("cursor") {
                    match repl.cursor_position() {
                        Some(position) => Ok(
                            PipelineData::Value(
                                Value::String { val: to_decimal(position), span: call.head },
                            ),
                        ),
                        None => Err(
                            ShellError::Downstream {
                                msg: String::from_str(
                                    "Cursor position isn't on a grapheme boundary",
                                ),
                                span: call.head,
                            },
                        ),
                    }
                } else {
                    Ok(PipelineData::Value(Value::String { val: repl.buffer(), span: call.head }))
                }
            },
        }
    }
}

impl Command for Commandline {
    fn name(&self) -> (name: &str)
        ensures
            name@ == "commandline"@,
    {
        "commandline"
    }

    fn signature(&self) -> (sig: Signature)
        ensures
            sig@ == commandline_signature(),
            sig@.wf(),
    {
        proof {
            reveal_strlit("cursor");
            reveal_strlit("append");
            reveal_strlit("insert");
            reveal_strlit("replace");
        }
        let mut types: Vec<(Type, Type)> = Vec::new();
        types.push((Type::Nothing, Type::Nothing));
        let sig = Signature::build("commandline").input_output_types(types);
        assert(sig@.wf());
        let sig = sig.switch("cursor", "Set or get the current cursor position", Some('c'));
        assert("append"@[0] != "cursor"@[0]);
        let sig = sig.switch("append", "appends the string to the end of the buffer", Some('a'));
        assert("insert"@[0] != "cursor"@[0] && "insert"@[0] != "append"@[0]);
        let sig = sig.switch(
            "insert",
            "inserts the string into the buffer at the cursor position",
            Some('i'),
        );
        assert("replace"@[0] != "cursor"@[0] && "replace"@[0] != "append"@[0] && "replace"@[0]
            != "insert"@[0]);
        let sig = sig.switch(
            "replace",
            "replaces the current contents of the buffer (default)",
            Some('r'),
        );
        let sig = sig.optional(
            "cmd",
            SyntaxShape::String,
            "the string to perform the operation with",
        ).category(Category::Core);
        proof {
            let want = commandline_signature();
            assert(sig@.named =~= want.named);
            assert(sig@.optional_positional =~= want.optional_positional);
            assert(sig@.input_output_types =~= want.input_output_types);
            assert(sig@.required_positional =~= want.required_positional);
        }
        sig
    }

    fn usage(&self) -> (usage: &str)
        ensures
            usage@ == "View or modify the current command line input buffer."@,
    {
        "View or modify the current command line input buffer."
    }

    fn search_terms(&self) -> (terms: Vec<&str>)
        ensures
            terms.len() == 2,
            terms[0]@ == "repl"@,
            terms[1]@ == "interactive"@,
    {
        let mut terms: Vec<&str> = Vec::new();
        terms.push("repl");
        terms.push("interactive");
        terms
    }

    /// Runs the command on the line buffer of the engine state, for as
    /// long as it holds the lock of the buffer. The buffer is shared, so
    /// what it holds when the lock is taken is not known beforehand: the
    /// command gives back what `run_spec` says for the buffer that it found.
    fn run(
        &self,
        engine_state: &EngineState,
        stack: &mut Stack,
        call: &Call,
        input: PipelineData,
    ) -> (r: Result<PipelineData, ShellError>)
        ensures
            final(stack)@ == old(stack)@,
            exists|found: ReplStateView| found.wf() && #[trigger] gives(r, run_spec(found, call@).1),
    {
        let (mut repl, handle) = engine_state.repl_state.acquire_write();
        let ghost found = repl@;
        let r = Commandline::run_on(&mut repl, call);
        handle.release_write(repl);
        assert(gives(r, run_spec(found, call@).1));
        r
    }
}

} // verus!
