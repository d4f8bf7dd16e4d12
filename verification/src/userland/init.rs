//! The first program: it opens a file on the disk, prints it and exits.

use vstd::prelude::*;
use vstd::string::StringSliceAdditionalSpecFns;
use crate::convert::{decimal, lemma_decimal_len, u64_to_str};

verus! {

/// What the program asks of the kernel next.
pub enum InitAction {
    Write(Vec<u8>),
    Read { fd: usize, len: usize },
    Close(usize),
    Exit(isize),
}

/// The path the program opens, with its terminating NUL.
pub const INIT_PATH: &'static str = "/disk1/README.TXT\0";

/// The bytes `write_num` prints: a minus sign for negative numbers, then
/// the decimal digits of the magnitude.
pub open spec fn num_text(n: int) -> Seq<u8> {
    if n < 0 {
        seq![0x2du8] + decimal((-n) as nat)
    } else {
        decimal(n as nat)
    }
}

/// The text of `n` (not `isize::MIN`, whose magnitude does not fit).
pub fn write_num(n: isize) -> (r: Vec<u8>)
    requires
        n != isize::MIN,
    ensures
        r@ == num_text(n as int),
{
    let mut out: Vec<u8> = Vec::new();
    let m: u64 = if n < 0 {
        out.push(0x2d);
        (-n) as u64
    } else {
        n as u64
    };
    let mut buf: Vec<u8> = vec![0u8; 20];
    proof {
        lemma_decimal_len(m as nat);
    }
    let k = u64_to_str(m, buf.as_mut_slice());
    let ghost start = out@;
    let mut i: usize = 0;
    while i < k
        invariant
            i <= k <= buf@.len(),
            buf@.subrange(0, k as int) == decimal(m as nat).subrange(0, k as int),
            k == decimal(m as nat).len(),
            out@ == start + buf@.subrange(0, i as int),
        decreases k - i,
    {
        out.push(buf[i]);
        i += 1;
        assert(out@ =~= start + buf@.subrange(0, i as int));
    }
    assert(decimal(m as nat).subrange(0, k as int) =~= decimal(m as nat));
    assert(out@ =~= start + decimal(m as nat));
    out
}

pub open spec fn text(s: &str) -> Seq<u8> {
    s.spec_bytes()
}

/// An action as a value of specifications.
pub ghost enum ActionView {
    Write(Seq<u8>),
    Read { fd: usize, len: usize },
    Close(usize),
    Exit(isize),
}

pub open spec fn action_view(a: InitAction) -> ActionView {
    match a {
        InitAction::Write(v) => ActionView::Write(v@),
        InitAction::Read { fd, len } => ActionView::Read { fd, len },
        InitAction::Close(fd) => ActionView::Close(fd),
        InitAction::Exit(c) => ActionView::Exit(c),
    }
}

pub open spec fn actions_view(v: Seq<InitAction>) -> Seq<ActionView> {
    v.map_values(|a: InitAction| action_view(a))
}

/// The calls after `open` returned `fd`: on failure the message with the
/// error number and exit code 1; otherwise the message that the file is
/// open and a read of up to 128 bytes.
pub open spec fn after_open_spec(fd: isize) -> Seq<ActionView> {
    if fd < 0 {
        seq![
            ActionView::Write(text("[init] open failed: ")),
            ActionView::Write(num_text(fd as int)),
            ActionView::Write(text("\n")),
            ActionView::Exit(1),
        ]
    } else {
        seq![ActionView::Write(text("[init] open ok")), ActionView::Read { fd: fd as usize, len: 128 }]
    }
}

/// The calls after reading `n` bytes into `buf`: on failure the message,
/// closing the file and exit code 2; otherwise the contents, a line feed
/// unless they end in one, closing the file, the last message and exit
/// code 0.
pub open spec fn after_read_spec(fd: usize, n: isize, buf: Seq<u8>) -> Seq<ActionView> {
    if n < 0 {
        seq![
            ActionView::Write(text("[init] read failed: ")),
            ActionView::Write(text("\n")),
            ActionView::Close(fd),
            ActionView::Exit(2),
        ]
    } else {
        let head = seq![ActionView::Write(text("[init] file contents:\n")), ActionView::Write(buf.subrange(0, n as int))];
        let nl = if n == 0 || buf[n - 1] != 0x0a { seq![ActionView::Write(text("\n"))] } else { Seq::empty() };
        head + nl + seq![
            ActionView::Close(fd),
            ActionView::Write(text("[init] Rusty programs work somehow\n")),
            ActionView::Exit(0),
        ]
    }
}

fn push_text(v: &mut Vec<InitAction>, s: &str)
    ensures
        actions_view(final(v)@) == actions_view(old(v)@).push(ActionView::Write(s.spec_bytes())),
{
    v.push(InitAction::Write(crate::text::str_bytes(s)));
    assert(actions_view(v@) =~= actions_view(old(v)@).push(ActionView::Write(s.spec_bytes())));
}

fn push_action(v: &mut Vec<InitAction>, a: InitAction)
    ensures
        actions_view(final(v)@) == actions_view(old(v)@).push(action_view(a)),
{
    let ghost av = action_view(a);
    v.push(a);
    assert(actions_view(v@) =~= actions_view(old(v)@).push(av));
}

/// The program's calls after `open` returned `fd`.
pub fn after_open(fd: isize) -> (r: Vec<InitAction>)
    requires
        fd != isize::MIN,
    ensures
        actions_view(r@) == after_open_spec(fd),
{
    let mut v: Vec<InitAction> = Vec::new();
    assert(actions_view(v@) =~= Seq::<ActionView>::empty());
    if fd < 0 {
        push_text(&mut v, "[init] open failed: ");
        push_action(&mut v, InitAction::Write(write_num(fd)));
        push_text(&mut v, "\n");
        push_action(&mut v, InitAction::Exit(1));
        assert(actions_view(v@) =~= after_open_spec(fd));
        return v;
    }
    push_text(&mut v, "[init] open ok");
    push_action(&mut v, InitAction::Read { fd: fd as usize, len: 128 });
    assert(actions_view(v@) =~= after_open_spec(fd));
    v
}

/// The program's calls after reading `n` bytes into `buf`.
pub fn after_read(fd: usize, n: isize, buf: &[u8]) -> (r: Vec<InitAction>)
    requires
        n < 0 || n as int <= buf@.len(),
    ensures
        actions_view(r@) == after_read_spec(fd, n, buf@),
{
    let mut v: Vec<InitAction> = Vec::new();
    assert(actions_view(v@) =~= Seq::<ActionView>::empty());
    if n < 0 {
        push_text(&mut v, "[init] read failed: ");
        push_text(&mut v, "\n");
        push_action(&mut v, InitAction::Close(fd));
        push_action(&mut v, InitAction::Exit(2));
        assert(actions_view(v@) =~= after_read_spec(fd, n, buf@));
        return v;
    }
    let len = n as usize;
    push_text(&mut v, "[init] file contents:\n");
    push_action(&mut v, InitAction::Write(crate::shell::commands::copy_bytes(&buf[0..len])));
    if len == 0 || buf[len - 1] != 0x0a {
        push_text(&mut v, "\n");
    }
    push_action(&mut v, InitAction::Close(fd));
    push_text(&mut v, "[init] Rusty programs work somehow\n");
    push_action(&mut v, InitAction::Exit(0));
    assert(actions_view(v@) =~= after_read_spec(fd, n, buf@));
    v
}

} // verus!
