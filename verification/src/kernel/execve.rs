//! Finding the program that an `execve` really runs.
//!
//! The kernel would read the file that the tracee names and, if it is a
//! script, start its interpreter instead. It would look for both under the
//! host's root. So the engine follows the chain of interpreters itself, with
//! every path taken through the binding table, and hands the kernel the
//! program at the end of the chain together with the arguments that the
//! scripts on the way ask for.

use vstd::prelude::*;
use crate::bytes::{copy_of, optional, strings};
use crate::errors::{Errno, Error};
use crate::filesystem::{resolution, BindingTable, BindingView};
use crate::kernel::script::{header, parse_header, Header, HeaderView};
use crate::kernel::enter::{
    denied, enter_denied, enter_rewritten, enter_unchanged, rewritten, unchanged, EnterStep,
    EnterStepView,
};
use crate::kernel::script::HEADER_SIZE;
use crate::filesystem::is_absolute;
use crate::memory::{
    answer, answers, le_bytes, push_le, reserve, spec_reserve, terminated,
    with_terminator, Fetched, FetchedView, MemWrite, MemWriteView, Request, RequestView,
};
use crate::register::{RegisterSet, SysArg, Word};
use crate::bytes::push_from;
use crate::filesystem::{PATH_MAX, SLASH};

verus! {

/// How many scripts may stand between the file that is executed and the
/// program that finally runs.
pub const MAX_INTERPRETER_DEPTH: usize = 4;

/// How far the search for the program to run has come.
#[derive(Clone, Debug, PartialEq, Eq)]
pub enum Resolution {
    /// The head of the host file `path` must be seen next.
    NeedHead { path: Vec<u8> },
    /// The syscall is to be denied with the given error.
    Denied(Error),
    /// The program to run is the host file `host`. If `depth` scripts were
    /// passed on the way, `args` holds what takes the place of the first
    /// argument of the tracee; otherwise it is empty.
    Ready { host: Vec<u8>, args: Vec<Vec<u8>>, depth: usize },
}

/// A resolution as contracts see it.
pub ghost enum ResolutionView {
    NeedHead { path: Seq<u8> },
    Denied(Error),
    Ready { host: Seq<u8>, args: Seq<Seq<u8>>, depth: nat },
}

impl DeepView for Resolution {
    type V = ResolutionView;

    open spec fn deep_view(&self) -> ResolutionView {
        match *self {
            Resolution::NeedHead { path } => ResolutionView::NeedHead { path: path@ },
            Resolution::Denied(e) => ResolutionView::Denied(e),
            Resolution::Ready { host, args, depth } => ResolutionView::Ready {
                host: host@,
                args: strings(args),
                depth: depth as nat,
            },
        }
    }
}

/// The arguments with which the interpreter of a script is started: its
/// own path, the argument from the first line of the script if there is one,
/// the path of the script, and what followed the first of the arguments so
/// far.
pub open spec fn script_args(
    interpreter: Seq<u8>,
    argument: Option<Seq<u8>>,
    script: Seq<u8>,
    args: Seq<Seq<u8>>,
) -> Seq<Seq<u8>> {
    let lead = match argument {
        Some(a) => seq![interpreter, a, script],
        None => seq![interpreter, script],
    };
    if args.len() > 0 {
        lead + args.skip(1)
    } else {
        lead
    }
}

/// Where the search stands after `depth` scripts, with the guest path
/// `current` to look at next.
///
/// The answer at position `depth + 1` is the head of the file behind
/// `current`. A file whose head cannot be read, or that is no script, is the
/// program to run. A script leads on to its interpreter, unless
/// `MAX_INTERPRETER_DEPTH` scripts were passed already: then the search
/// fails with `ELOOP`.
pub open spec fn resolve(
    table: Seq<BindingView>,
    current: Seq<u8>,
    args: Seq<Seq<u8>>,
    fetched: Seq<FetchedView>,
    depth: nat,
) -> ResolutionView
    decreases MAX_INTERPRETER_DEPTH - depth,
{
    match resolution(table, current) {
        Err(e) => ResolutionView::Denied(Error::PathResolution(e)),
        Ok(host) => if depth + 1 >= fetched.len() {
            ResolutionView::NeedHead { path: host }
        } else {
            match fetched[depth as int + 1] {
                FetchedView::Fault => ResolutionView::Ready { host, args, depth },
                FetchedView::Data(head) => match header(head) {
                    HeaderView::NotScript => ResolutionView::Ready { host, args, depth },
                    HeaderView::Malformed => ResolutionView::Denied(Error::Kernel(Errno::ENOEXEC)),
                    HeaderView::Script { interpreter, argument } => if depth
                        >= MAX_INTERPRETER_DEPTH {
                        ResolutionView::Denied(Error::Kernel(Errno::ELOOP))
                    } else {
                        resolve(
                            table,
                            interpreter,
                            script_args(interpreter, argument, current, args),
                            fetched,
                            depth + 1,
                        )
                    },
                },
            }
        },
    }
}

/// Whether the answer at position `i` is the head of a script.
pub open spec fn is_script_head(fetched: Seq<FetchedView>, i: int) -> bool {
    &&& 0 <= i < fetched.len()
    &&& fetched[i] matches FetchedView::Data(head)
    &&& header(head) is Script
}

/// The search is bounded. It never looks at more than
/// `MAX_INTERPRETER_DEPTH + 1` files: once that many heads are there it has
/// ended. It never passes more than `MAX_INTERPRETER_DEPTH` scripts. And it
/// fails with `ELOOP`, an error that no other failure of the search gives,
/// only if every one of the files it looked at is a script.
pub proof fn lemma_resolution_is_bounded(
    table: Seq<BindingView>,
    current: Seq<u8>,
    args: Seq<Seq<u8>>,
    fetched: Seq<FetchedView>,
    depth: nat,
)
    requires
        depth <= MAX_INTERPRETER_DEPTH,
    ensures
        fetched.len() > MAX_INTERPRETER_DEPTH + 1 ==> !(resolve(
            table,
            current,
            args,
            fetched,
            depth,
        ) is NeedHead),
        resolve(table, current, args, fetched, depth) matches ResolutionView::Ready {
            depth: passed,
            ..
        } ==> depth <= passed <= MAX_INTERPRETER_DEPTH && passed + 1 < fetched.len(),
        resolve(table, current, args, fetched, depth) matches ResolutionView::Denied(e)
            ==> (e.spec_errno() == Errno::ELOOP <==> e == Error::Kernel(Errno::ELOOP)),
        resolve(table, current, args, fetched, depth) == ResolutionView::Denied(
            Error::Kernel(Errno::ELOOP),
        ) ==> forall|i: int|
            depth + 1 <= i <= MAX_INTERPRETER_DEPTH + 1 ==> is_script_head(fetched, i),
    decreases MAX_INTERPRETER_DEPTH - depth,
{
    if resolution(table, current) is Ok && depth + 1 < fetched.len() {
        if let FetchedView::Data(head) = fetched[depth as int + 1] {
            if let HeaderView::Script { interpreter, argument } = header(head) {
                assert(is_script_head(fetched, depth as int + 1));
                if depth < MAX_INTERPRETER_DEPTH {
                    lemma_resolution_is_bounded(
                        table,
                        interpreter,
                        script_args(interpreter, argument, current, args),
                        fetched,
                        depth + 1,
                    );
                }
            }
        }
    }
}

/// Builds the arguments with which the interpreter of a script is started.
fn make_script_args(
    interpreter: &Vec<u8>,
    argument: Option<Vec<u8>>,
    script: Vec<u8>,
    args: Vec<Vec<u8>>,
) -> (out: Vec<Vec<u8>>)
    ensures
        strings(out) == script_args(
            interpreter@,
            optional(argument),
            script@,
            strings(args),
        ),
{
    let ghost old_args = strings(args);
    let ghost script_view = script@;
    let ghost lead = match optional(argument) {
        Some(a) => seq![interpreter@, a, script_view],
        None => seq![interpreter@, script_view],
    };
    let mut out: Vec<Vec<u8>> = Vec::new();
    out.push(copy_of(interpreter));
    match argument {
        Some(a) => {
            out.push(a);
        },
        None => {},
    }
    out.push(script);
    assert(strings(out) =~= lead);
    let mut args = args;
    if args.len() > 0 {
        let ghost whole = args@;
        let mut rest = args.split_off(1);
        assert(strings(rest) =~= old_args.skip(1)) by {
            assert forall|i: int| 0 <= i < rest@.len() implies rest@[i] == whole[i + 1] by {
                assert(rest@[i] == whole.subrange(1, whole.len() as int)[i]);
            }
        }
        let ghost tail = rest@;
        let ghost before = out@;
        out.append(&mut rest);
        assert(out@ == before + tail);
        assert(strings(out) =~= lead + old_args.skip(1));
    }
    out
}

/// Follows the chain of interpreters from the guest path `path` as far as
/// the answers reach.
#[verifier::loop_isolation(false)]
pub fn resolve_program(table: &BindingTable, path: &Vec<u8>, fetched: &Vec<Fetched>) -> (r:
    Resolution)
    requires
        table.wf(),
    ensures
        r.deep_view() == resolve(table@, path@, Seq::empty(), answers(fetched), 0),
{
    let ghost goal = resolve(table@, path@, Seq::empty(), answers(fetched), 0);
    let mut current: Vec<u8> = copy_of(path);
    let mut args: Vec<Vec<u8>> = Vec::new();
    let mut depth: usize = 0;
    assert(strings(args) =~= Seq::<Seq<u8>>::empty());
    loop
        invariant
            table.wf(),
            depth <= MAX_INTERPRETER_DEPTH,
            goal == resolve(table@, current@, strings(args), answers(fetched), depth as nat),
        decreases MAX_INTERPRETER_DEPTH - depth,
    {
        let host = match table.resolve(&current) {
            Err(e) => {
                return Resolution::Denied(Error::PathResolution(e));
            },
            Ok((host, _)) => host,
        };
        let head = match answer(fetched, depth + 1) {
            None => {
                return Resolution::NeedHead { path: host };
            },
            Some(Fetched::Fault) => {
                return Resolution::Ready { host, args, depth };
            },
            Some(Fetched::Data(head)) => head,
        };
        match parse_header(head) {
            Header::NotScript => {
                return Resolution::Ready { host, args, depth };
            },
            Header::Malformed => {
                return Resolution::Denied(Error::Kernel(Errno::ENOEXEC));
            },
            Header::Script { interpreter, argument } => {
                if depth >= MAX_INTERPRETER_DEPTH {
                    return Resolution::Denied(Error::Kernel(Errno::ELOOP));
                }
                args = make_script_args(&interpreter, argument, current, args);
                current = interpreter;
                depth += 1;
            },
        }
    }
}

/// How many arguments of the tracee are carried over to the interpreter of
/// a script.
pub const MAX_ARGUMENTS: usize = 32768;

/// Where string number `i` lies when the strings are placed one below the
/// other, the first just below `top`; `None` if there is no room for it.
pub open spec fn address_of(list: Seq<Seq<u8>>, top: Word, i: int) -> Option<Word>
    decreases i,
{
    if i < 0 || i >= list.len() {
        None
    } else if i == 0 {
        spec_reserve(top, list[0].len() + 1)
    } else {
        match address_of(list, top, i - 1) {
            None => None,
            Some(above) => spec_reserve(above, list[i].len() + 1),
        }
    }
}

/// The writes that place the strings, each with its terminator.
pub open spec fn string_writes(list: Seq<Seq<u8>>, top: Word) -> Seq<MemWriteView> {
    Seq::new(
        list.len(),
        |i: int|
            MemWriteView { addr: address_of(list, top, i).unwrap(), bytes: terminated(list[i]) },
    )
}

/// The addresses of the strings from number `from` up to, and without,
/// number `to`, as words of `word_size` bytes.
pub open spec fn pointers(list: Seq<Seq<u8>>, top: Word, from: int, to: int, word_size: nat) -> Seq<
    u8,
>
    decreases to - from,
{
    if to <= from {
        Seq::empty()
    } else {
        pointers(list, top, from, to - 1, word_size) + le_bytes(
            address_of(list, top, to - 1).unwrap() as nat,
            word_size,
        )
    }
}

/// The argument vector for the interpreter of a script: the addresses of
/// the strings that take the place of the first argument, then the words
/// that followed the first argument in the vector `old` of the tracee, then
/// a zero word. The first string of `list` is the program and no argument.
pub open spec fn argument_vector(list: Seq<Seq<u8>>, top: Word, old: Seq<u8>, word_size: nat) -> Seq<
    u8,
> {
    let kept = if old.len() >= word_size {
        old.skip(word_size as int)
    } else {
        Seq::empty()
    };
    pointers(list, top, 1, list.len() as int, word_size) + kept + le_bytes(0, word_size)
}

/// What the kernel is handed once the program is found.
///
/// The strings are placed one below the other from `top` down; the first
/// is the host path of the program, and the first argument register is
/// pointed at it. Where scripts were passed, `old` is the argument vector
/// of the tracee: a new vector is placed below the strings and the second
/// argument register is pointed at it. The syscall is denied if there is no
/// room for all this.
pub open spec fn launched(
    entry: RegisterSet,
    top: Word,
    list: Seq<Seq<u8>>,
    old: Option<Seq<u8>>,
    word_size: nat,
) -> EnterStepView {
    match address_of(list, top, list.len() - 1) {
        None => enter_denied(entry, Error::Kernel(Errno::ENOMEM)),
        Some(lowest) => {
            let regs = entry.with_arg(SysArg::Arg1, address_of(list, top, 0).unwrap());
            let writes = string_writes(list, top);
            match old {
                None => enter_rewritten(regs, writes),
                Some(old) => {
                    let vector = argument_vector(list, top, old, word_size);
                    match spec_reserve(lowest, vector.len()) {
                        None => enter_denied(entry, Error::Kernel(Errno::ENOMEM)),
                        Some(at) => enter_rewritten(
                            regs.with_arg(SysArg::Arg2, at),
                            writes.push(MemWriteView { addr: at, bytes: vector }),
                        ),
                    }
                },
            }
        },
    }
}

/// A string that has no room is followed by strings that have no room.
pub proof fn lemma_address_chain(list: Seq<Seq<u8>>, top: Word, i: int, j: int)
    requires
        0 <= i <= j < list.len(),
        address_of(list, top, i) is None,
    ensures
        address_of(list, top, j) is None,
    decreases j - i,
{
    if i < j {
        lemma_address_chain(list, top, i, j - 1);
    }
}

/// Builds what the kernel is handed once the program is found.
#[verifier::loop_isolation(false)]
pub fn launch(
    entry: RegisterSet,
    top: Word,
    list: &Vec<Vec<u8>>,
    old: Option<&Vec<u8>>,
    word_size: usize,
) -> (step: EnterStep)
    requires
        list.len() > 0,
    ensures
        step.deep_view() == launched(
            entry,
            top,
            strings(*list),
            match old {
                Some(o) => Some(o@),
                None => None,
            },
            word_size as nat,
        ),
{
    let ghost views = strings(*list);
    let n = list.len();
    let mut addrs: Vec<Word> = Vec::new();
    let mut writes: Vec<MemWrite> = Vec::new();
    let mut low: Word = top;
    let mut i: usize = 0;
    while i < n
        invariant
            i <= n,
            addrs.len() == i,
            writes.len() == i,
            i > 0 ==> low == addrs@[i - 1],
            i == 0 ==> low == top,
            forall|j: int| 0 <= j < i ==> address_of(views, top, j) == Some(#[trigger] addrs@[j]),
            forall|j: int|
                0 <= j < i ==> (#[trigger] writes@[j]).deep_view() == (MemWriteView {
                    addr: addrs@[j],
                    bytes: terminated(views[j]),
                }),
        decreases n - i,
    {
        let len = list[i].len() as u64;
        let found = if len == u64::MAX {
            None
        } else {
            reserve(low, len + 1)
        };
        assert(found == address_of(views, top, i as int));
        match found {
            None => {
                proof {
                    lemma_address_chain(views, top, i as int, n - 1);
                }
                return denied(entry, Error::Kernel(Errno::ENOMEM));
            },
            Some(addr) => {
                writes.push(MemWrite { addr, bytes: with_terminator(&list[i]) });
                addrs.push(addr);
                low = addr;
            },
        }
        i += 1;
    }
    assert(writes.deep_view() =~= string_writes(views, top));
    let mut regs = entry;
    regs.set_arg(SysArg::Arg1, addrs[0]);
    match old {
        None => rewritten(regs, writes),
        Some(old) => {
            let mut vector: Vec<u8> = Vec::new();
            let mut j: usize = 1;
            assert(vector@ =~= pointers(views, top, 1, 1, word_size as nat));
            while j < n
                invariant
                    1 <= j <= n,
                    vector@ == pointers(views, top, 1, j as int, word_size as nat),
                decreases n - j,
            {
                push_le(&mut vector, addrs[j], word_size);
                j += 1;
            }
            if old.len() >= word_size {
                push_from(&mut vector, old, word_size);
            } else {
                assert(vector@ + Seq::<u8>::empty() =~= vector@);
            }
            push_le(&mut vector, 0, word_size);
            assert(vector@ == argument_vector(views, top, old@, word_size as nat));
            match reserve(low, vector.len() as u64) {
                None => denied(entry, Error::Kernel(Errno::ENOMEM)),
                Some(at) => {
                    regs.set_arg(SysArg::Arg2, at);
                    let ghost before = writes.deep_view();
                    let ghost added = MemWriteView { addr: at, bytes: vector@ };
                    writes.push(MemWrite { addr: at, bytes: vector });
                    assert(writes.deep_view() =~= before.push(added));
                    rewritten(regs, writes)
                },
            }
        },
    }
}

/// What entering `execve` leads to.
///
/// The path of the file to execute is read from where the first argument
/// points. A path that cannot be read, or a relative one, lets the syscall
/// through as it was entered. Otherwise the chain of interpreters is
/// followed, one file head at a time. If the file is no script, only its
/// host path is handed to the kernel. If scripts were passed, the argument
/// vector of the tracee is read as well, and the kernel is handed the last
/// interpreter with the arguments that the scripts ask for; a vector that
/// was not read to its end is refused with `E2BIG`.
pub open spec fn execve_entered(
    table: Seq<BindingView>,
    word_size: usize,
    entry: RegisterSet,
    top: Word,
    fetched: Seq<FetchedView>,
) -> EnterStepView {
    if fetched.len() == 0 {
        EnterStepView::Need(RequestView::CString { addr: entry.arg1, max: PATH_MAX })
    } else {
        match fetched[0] {
            FetchedView::Fault => enter_unchanged(entry),
            FetchedView::Data(p) => if !is_absolute(p) {
                enter_unchanged(entry)
            } else {
                match resolve(table, p, Seq::empty(), fetched, 0) {
                    ResolutionView::NeedHead { path } => EnterStepView::Need(
                        RequestView::FileHead { path, len: HEADER_SIZE },
                    ),
                    ResolutionView::Denied(e) => enter_denied(entry, e),
                    ResolutionView::Ready { host, args, depth } => if depth == 0 {
                        launched(entry, top, seq![host], None, word_size as nat)
                    } else if depth + 2 >= fetched.len() {
                        EnterStepView::Need(
                            RequestView::Words {
                                addr: entry.arg2,
                                max: MAX_ARGUMENTS,
                                word_size,
                            },
                        )
                    } else {
                        match fetched[depth as int + 2] {
                            FetchedView::Fault => enter_unchanged(entry),
                            FetchedView::Data(old) => if old.len() >= MAX_ARGUMENTS * word_size {
                                enter_denied(entry, Error::Kernel(Errno::E2BIG))
                            } else {
                                launched(
                                    entry,
                                    top,
                                    seq![host] + args,
                                    Some(old),
                                    word_size as nat,
                                )
                            },
                        }
                    },
                }
            },
        }
    }
}

/// Translates the arguments of `execve` at syscall entry.
pub fn enter_execve(
    table: &BindingTable,
    word_size: usize,
    entry: RegisterSet,
    top: Word,
    fetched: &Vec<Fetched>,
) -> (step: EnterStep)
    requires
        table.wf(),
        word_size <= 8,
    ensures
        step.deep_view() == execve_entered(table@, word_size, entry, top, answers(fetched)),
{
    let path = match answer(fetched, 0) {
        None => {
            return EnterStep::Need(Request::CString { addr: entry.arg1, max: PATH_MAX });
        },
        Some(Fetched::Fault) => {
            return unchanged(entry);
        },
        Some(Fetched::Data(p)) => p,
    };
    if !(path.len() > 0 && path[0] == SLASH) {
        return unchanged(entry);
    }
    match resolve_program(table, path, fetched) {
        Resolution::NeedHead { path } => EnterStep::Need(
            Request::FileHead { path, len: HEADER_SIZE },
        ),
        Resolution::Denied(e) => denied(entry, e),
        Resolution::Ready { host, args, depth } => {
            proof {
                lemma_resolution_is_bounded(table@, path@, Seq::empty(), answers(fetched), 0);
            }
            let mut list: Vec<Vec<u8>> = Vec::new();
            let ghost host_view = host@;
            let ghost args_view = strings(args);
            list.push(host);
            if depth == 0 {
                assert(strings(list) =~= seq![host_view]);
                return launch(entry, top, &list, None, word_size);
            }
            match answer(fetched, depth + 2) {
                None => EnterStep::Need(
                    Request::Words { addr: entry.arg2, max: MAX_ARGUMENTS, word_size },
                ),
                Some(Fetched::Fault) => unchanged(entry),
                Some(Fetched::Data(old)) => {
                    if old.len() >= MAX_ARGUMENTS * word_size {
                        return denied(entry, Error::Kernel(Errno::E2BIG));
                    }
                    let mut args = args;
                    list.append(&mut args);
                    assert(strings(list) =~= seq![host_view] + args_view);
                    launch(entry, top, &list, Some(old), word_size)
                },
            }
        },
    }
}

} // verus!
