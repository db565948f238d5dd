//! The line protocol spoken with the spindle controller: outbound command
//! frames and inbound status frames.
use vstd::prelude::*;
use vstd::string::StringExecFns;

verus! {

pub const SEMICOLON: u8 = 59;

pub const LINE_FEED: u8 = 10;

pub const CARRIAGE_RETURN: u8 = 13;

pub const SPACE: u8 = 32;

pub const NUL: u8 = 0;

pub const DIGIT_ZERO: u8 = 48;

pub const PLUS_SIGN: u8 = 43;

/// The decimal digits of `n`, most significant first, with no leading zeros.
pub open spec fn decimal(n: nat) -> Seq<u8>
    decreases n,
{
    if n < 10 {
        seq![(DIGIT_ZERO + n) as u8]
    } else {
        decimal(n / 10).push((DIGIT_ZERO + n % 10) as u8)
    }
}

/// Appends the decimal digits of `n` to `out`.
fn push_decimal(out: &mut Vec<u8>, n: u32)
    ensures
        final(out)@ == old(out)@ + decimal(n as nat),
    decreases n,
{
    if n >= 10 {
        push_decimal(out, n / 10);
    }
    out.push(DIGIT_ZERO + (n % 10) as u8);
    proof {
        assert(out@ =~= old(out)@ + decimal(n as nat));
    }
}


/// A high-level command for the spindle controller.
#[derive(Clone, Copy, Debug, PartialEq, Eq, Structural)]
pub enum Command {
    Start,
    Stop,
    EmergencyStop,
    Status,
    /// Run towards `speed`; `reverse` selects the direction (false: forward).
    Target { reverse: bool, speed: u32 },
}

/// The verb of `c` on the wire, with its leading `;`.
pub open spec fn verb_of(c: Command) -> Seq<u8> {
    match c {
        Command::Start => seq![SEMICOLON, ('S' as u8), ('T' as u8), ('A' as u8), ('R' as u8), ('T' as u8)],
        Command::Stop => seq![SEMICOLON, ('S' as u8), ('T' as u8), ('O' as u8), ('P' as u8)],
        Command::EmergencyStop => seq![SEMICOLON, ('E' as u8), ('M' as u8), ('E' as u8), ('R' as u8), ('G' as u8)],
        Command::Status => seq![SEMICOLON, ('S' as u8), ('T' as u8), ('A' as u8), ('T' as u8), ('U' as u8), ('S' as u8)],
        Command::Target { .. } => seq![SEMICOLON, ('T' as u8), ('A' as u8), ('R' as u8), ('G' as u8), ('E' as u8), ('T' as u8)],
    }
}

/// The direction letter: `R` for reverse, `F` for forward.
pub open spec fn direction_letter(reverse: bool) -> u8 {
    if reverse {
        ('R' as u8)
    } else {
        ('F' as u8)
    }
}

/// The complete frame that carries `c`, line feed included.
pub open spec fn frame_of(c: Command) -> Seq<u8> {
    match c {
        Command::Target { reverse, speed } => verb_of(c) + seq![SPACE, direction_letter(reverse), SPACE]
            + decimal(speed as nat) + seq![LINE_FEED],
        _ => verb_of(c) + seq![LINE_FEED],
    }
}

fn push_all(out: &mut Vec<u8>, bytes: &[u8])
    ensures
        final(out)@ == old(out)@ + bytes@,
{
    let mut i: usize = 0;
    while i < bytes.len()
        invariant
            i <= bytes@.len(),
            out@ == old(out)@ + bytes@.take(i as int),
        decreases bytes@.len() - i,
    {
        out.push(bytes[i]);
        i = i + 1;
        assert(out@ =~= old(out)@ + bytes@.take(i as int));
    }
    assert(bytes@.take(i as int) =~= bytes@);
}

/// Encodes `c` as the bytes to put on the wire.
pub fn encode(c: Command) -> (r: Vec<u8>)
    ensures
        r@ == frame_of(c),
{
    let mut out: Vec<u8> = Vec::new();
    match c {
        Command::Start => push_all(&mut out, &[SEMICOLON, ('S' as u8), ('T' as u8), ('A' as u8), ('R' as u8), ('T' as u8)]),
        Command::Stop => push_all(&mut out, &[SEMICOLON, ('S' as u8), ('T' as u8), ('O' as u8), ('P' as u8)]),
        Command::EmergencyStop => push_all(&mut out, &[SEMICOLON, ('E' as u8), ('M' as u8), ('E' as u8), ('R' as u8), ('G' as u8)]),
        Command::Status => push_all(&mut out, &[SEMICOLON, ('S' as u8), ('T' as u8), ('A' as u8), ('T' as u8), ('U' as u8), ('S' as u8)]),
        Command::Target { reverse, speed } => {
            push_all(&mut out, &[SEMICOLON, ('T' as u8), ('A' as u8), ('R' as u8), ('G' as u8), ('E' as u8), ('T' as u8), SPACE]);
            out.push(if reverse { ('R' as u8) } else { ('F' as u8) });
            out.push(SPACE);
            push_decimal(&mut out, speed);
        },
    }
    out.push(LINE_FEED);
    assert(out@ =~= frame_of(c));
    out
}


/// The frame of `c` read as text, one character per byte.
pub open spec fn frame_text(c: Command) -> Seq<char> {
    frame_of(c).map_values(|b: u8| b as char)
}

fn digit_text(d: u32) -> (r: &'static str)
    requires
        d < 10,
    ensures
        r@ == seq![((DIGIT_ZERO + d) as u8) as char],
{
    proof {
        reveal_strlit("0");
        reveal_strlit("1");
        reveal_strlit("2");
        reveal_strlit("3");
        reveal_strlit("4");
        reveal_strlit("5");
        reveal_strlit("6");
        reveal_strlit("7");
        reveal_strlit("8");
        reveal_strlit("9");
    }
    let r = match d {
        0 => "0",
        1 => "1",
        2 => "2",
        3 => "3",
        4 => "4",
        5 => "5",
        6 => "6",
        7 => "7",
        8 => "8",
        _ => "9",
    };
    assert(r@ =~= seq![((DIGIT_ZERO + d) as u8) as char]);
    r
}

fn append_decimal_text(out: &mut String, n: u32)
    ensures
        final(out)@ == old(out)@ + decimal(n as nat).map_values(|b: u8| b as char),
    decreases n,
{
    if n >= 10 {
        append_decimal_text(out, n / 10);
    }
    out.append(digit_text(n % 10));
    proof {
        if n >= 10 {
            assert(decimal(n as nat).map_values(|b: u8| b as char) =~= decimal((n / 10) as nat).map_values(
                |b: u8| b as char,
            ).push(((DIGIT_ZERO + n % 10) as u8) as char));
        }
        assert(out@ =~= old(out)@ + decimal(n as nat).map_values(|b: u8| b as char));
    }
}

/// The frame of `c` as text, as it appears in messages to the user.
pub fn command_text(c: Command) -> (r: String)
    ensures
        r@ == frame_text(c),
{
    proof {
        reveal_strlit(";START\n");
        reveal_strlit(";STOP\n");
        reveal_strlit(";EMERG\n");
        reveal_strlit(";STATUS\n");
        reveal_strlit(";TARGET R ");
        reveal_strlit(";TARGET F ");
        reveal_strlit("\n");
    }
    match c {
        Command::Start => {
            let r = ";START\n".to_owned();
            assert(r@ =~= frame_text(c));
            r
        },
        Command::Stop => {
            let r = ";STOP\n".to_owned();
            assert(r@ =~= frame_text(c));
            r
        },
        Command::EmergencyStop => {
            let r = ";EMERG\n".to_owned();
            assert(r@ =~= frame_text(c));
            r
        },
        Command::Status => {
            let r = ";STATUS\n".to_owned();
            assert(r@ =~= frame_text(c));
            r
        },
        Command::Target { reverse, speed } => {
            let mut r = if reverse {
                ";TARGET R ".to_owned()
            } else {
                ";TARGET F ".to_owned()
            };
            let ghost head = r@;
            append_decimal_text(&mut r, speed);
            r.append("\n");
            let ghost f = |b: u8| b as char;
            assert(frame_of(c) =~= (verb_of(c) + seq![SPACE, direction_letter(reverse), SPACE])
                + decimal(speed as nat) + seq![LINE_FEED]);
            assert((verb_of(c) + seq![SPACE, direction_letter(reverse), SPACE]).map_values(f) =~= head);
            assert(r@ =~= frame_text(c));
            r
        },
    }
}

/// The operating state reported by the controller.
#[derive(Clone, Copy, Debug, PartialEq, Eq, Structural)]
pub enum MachineState {
    Stopped,
    Running,
    EmergencyStop,
    Error,
    /// Never decoded from the wire: kept for callers that find the link down.
    Offline,
}

/// One decoded status report.
#[derive(Clone, Copy, Debug, PartialEq, Eq, Structural)]
pub struct SpindleState {
    pub state: MachineState,
    /// false: forward, true: reverse.
    pub direction: bool,
    pub target_speed: u32,
    pub speed: u32,
    pub power: u32,
}

/// Why a reply could not be decoded.
#[derive(Clone, Copy, Debug, PartialEq, Eq, Structural)]
pub enum CodecError {
    FrameMissing,
    FrameMalformed,
    ParseState,
    ParseDirection,
    ParseTargetSpeed,
    ParseSpeed,
    ParsePower,
}

/// The first index `k` in `[i, end)` with `s[k] == b`, or `end` if there is none.
pub open spec fn find_in(s: Seq<u8>, b: u8, i: int, end: int) -> int
    decreases end - i,
{
    if i >= end {
        end
    } else if s[i] == b {
        i
    } else {
        find_in(s, b, i + 1, end)
    }
}

/// The bytes between the first `;` and the first line feed after it, looking only
/// at the part of `buf` before its first NUL; `None` when there is no such frame.
pub open spec fn frame_payload(buf: Seq<u8>) -> Option<Seq<u8>> {
    let end = find_in(buf, NUL, 0, buf.len() as int);
    let open = find_in(buf, SEMICOLON, 0, end);
    if open >= end {
        None
    } else {
        let close = find_in(buf, LINE_FEED, open + 1, end);
        if close >= end {
            None
        } else {
            Some(buf.subrange(open + 1, close))
        }
    }
}

/// `s` without its carriage returns and line feeds.
pub open spec fn strip_line_ends(s: Seq<u8>) -> Seq<u8>
    decreases s.len(),
{
    if s.len() == 0 {
        s
    } else {
        let rest = strip_line_ends(s.drop_last());
        if s.last() == CARRIAGE_RETURN || s.last() == LINE_FEED {
            rest
        } else {
            rest.push(s.last())
        }
    }
}

/// `s` cut at every single space; `k` spaces give `k + 1` tokens, empty ones included.
pub open spec fn split_spaces(s: Seq<u8>) -> Seq<Seq<u8>>
    decreases s.len(),
{
    if s.len() == 0 {
        seq![Seq::empty()]
    } else {
        let t = split_spaces(s.drop_last());
        if s.last() == SPACE {
            t.push(Seq::empty())
        } else {
            t.update(t.len() - 1, t.last().push(s.last()))
        }
    }
}

pub open spec fn is_digit(c: u8) -> bool {
    DIGIT_ZERO <= c <= DIGIT_ZERO + 9
}

pub open spec fn all_digits(s: Seq<u8>) -> bool {
    forall|i: int| 0 <= i < s.len() ==> is_digit(#[trigger] s[i])
}

/// The number that the decimal digits `s` denote.
pub open spec fn digits_value(s: Seq<u8>) -> nat
    decreases s.len(),
{
    if s.len() == 0 {
        0
    } else {
        digits_value(s.drop_last()) * 10 + (s.last() - DIGIT_ZERO) as nat
    }
}

/// `s` read as a non-empty run of decimal digits whose value fits in a `u32`.
pub open spec fn parse_digits(s: Seq<u8>) -> Option<u32> {
    if s.len() > 0 && all_digits(s) && digits_value(s) <= u32::MAX {
        Some(digits_value(s) as u32)
    } else {
        None
    }
}

/// `s` read as an unsigned decimal number: an optional `+`, then a non-empty run
/// of digits (leading zeros allowed) whose value fits in a `u32`.
pub open spec fn parse_decimal(s: Seq<u8>) -> Option<u32> {
    if s.len() > 0 && s[0] == PLUS_SIGN {
        parse_digits(s.subrange(1, s.len() as int))
    } else {
        parse_digits(s)
    }
}

pub open spec fn state_token(m: MachineState) -> Seq<u8> {
    match m {
        MachineState::Stopped => seq![('S' as u8), ('T' as u8), ('O' as u8), ('P' as u8)],
        MachineState::Running => seq![('R' as u8), ('U' as u8), ('N' as u8)],
        MachineState::EmergencyStop => seq![('E' as u8), ('M' as u8), ('E' as u8), ('R' as u8), ('G' as u8)],
        MachineState::Error => seq![('E' as u8), ('R' as u8), ('R' as u8), ('O' as u8), ('R' as u8)],
        MachineState::Offline => seq![],
    }
}

/// The state that the token `t` names; no token names `Offline`.
pub open spec fn state_of(t: Seq<u8>) -> Option<MachineState> {
    if t == state_token(MachineState::Stopped) {
        Some(MachineState::Stopped)
    } else if t == state_token(MachineState::Running) {
        Some(MachineState::Running)
    } else if t == state_token(MachineState::EmergencyStop) {
        Some(MachineState::EmergencyStop)
    } else if t == state_token(MachineState::Error) {
        Some(MachineState::Error)
    } else {
        None
    }
}

/// The direction that the token `t` names: `F` forward (false), `R` reverse (true).
pub open spec fn direction_of(t: Seq<u8>) -> Option<bool> {
    if t == seq![direction_letter(false)] {
        Some(false)
    } else if t == seq![direction_letter(true)] {
        Some(true)
    } else {
        None
    }
}

/// The status record that the first five tokens of `t` carry, or the first reason
/// they do not; tokens after the fifth are ignored.
pub open spec fn decode_fields(t: Seq<Seq<u8>>) -> Result<SpindleState, CodecError> {
    if t.len() < 5 {
        Err(CodecError::FrameMalformed)
    } else {
        match state_of(t[0]) {
            None => Err(CodecError::ParseState),
            Some(state) => match direction_of(t[1]) {
                None => Err(CodecError::ParseDirection),
                Some(direction) => match parse_decimal(t[2]) {
                    None => Err(CodecError::ParseTargetSpeed),
                    Some(target_speed) => match parse_decimal(t[3]) {
                        None => Err(CodecError::ParseSpeed),
                        Some(speed) => match parse_decimal(t[4]) {
                            None => Err(CodecError::ParsePower),
                            Some(power) => Ok(
                                SpindleState { state, direction, target_speed, speed, power },
                            ),
                        },
                    },
                },
            },
        }
    }
}

/// What a reply buffer decodes to.
pub open spec fn decode_reply(buf: Seq<u8>) -> Result<SpindleState, CodecError> {
    match frame_payload(buf) {
        None => Err(CodecError::FrameMissing),
        Some(p) => decode_fields(split_spaces(strip_line_ends(p))),
    }
}


fn find_byte(buf: &[u8], b: u8, from: usize, end: usize) -> (r: usize)
    requires
        from <= end <= buf@.len(),
    ensures
        r == find_in(buf@, b, from as int, end as int),
        from <= r <= end,
{
    let mut i = from;
    while i < end
        invariant
            from <= i <= end <= buf@.len(),
            find_in(buf@, b, from as int, end as int) == find_in(buf@, b, i as int, end as int),
        decreases end - i,
    {
        if buf[i] == b {
            return i;
        }
        i = i + 1;
    }
    i
}

fn strip_range(buf: &[u8], start: usize, end: usize) -> (r: Vec<u8>)
    requires
        start <= end <= buf@.len(),
    ensures
        r@ == strip_line_ends(buf@.subrange(start as int, end as int)),
{
    let mut out: Vec<u8> = Vec::new();
    let mut i = start;
    while i < end
        invariant
            start <= i <= end <= buf@.len(),
            out@ == strip_line_ends(buf@.subrange(start as int, i as int)),
        decreases end - i,
    {
        let c = buf[i];
        assert(buf@.subrange(start as int, i + 1).drop_last() =~= buf@.subrange(start as int, i as int));
        if c != CARRIAGE_RETURN && c != LINE_FEED {
            out.push(c);
        }
        i = i + 1;
    }
    out
}

pub open spec fn views(v: Seq<Vec<u8>>) -> Seq<Seq<u8>> {
    v.map_values(|t: Vec<u8>| t@)
}

fn split_tokens(s: &Vec<u8>) -> (r: Vec<Vec<u8>>)
    ensures
        views(r@) == split_spaces(s@),
{
    let mut done: Vec<Vec<u8>> = Vec::new();
    let mut cur: Vec<u8> = Vec::new();
    let mut i: usize = 0;
    assert(s@.take(0) =~= Seq::<u8>::empty());
    assert(views(done@).push(cur@) =~= split_spaces(s@.take(0)));
    while i < s.len()
        invariant
            i <= s@.len(),
            views(done@).push(cur@) == split_spaces(s@.take(i as int)),
        decreases s@.len() - i,
    {
        let c = s[i];
        assert(s@.take(i + 1).drop_last() =~= s@.take(i as int));
        if c == SPACE {
            let finished = cur;
            done.push(finished);
            cur = Vec::new();
            assert(views(done@).push(cur@) =~= split_spaces(s@.take(i + 1)));
        } else {
            cur.push(c);
            assert(views(done@).push(cur@) =~= split_spaces(s@.take(i + 1)));
        }
        i = i + 1;
    }
    done.push(cur);
    assert(s@.take(i as int) =~= s@);
    assert(views(done@) =~= split_spaces(s@));
    done
}

fn bytes_equal(a: &[u8], b: &[u8]) -> (r: bool)
    ensures
        r == (a@ == b@),
{
    if a.len() != b.len() {
        return false;
    }
    let mut i: usize = 0;
    while i < a.len()
        invariant
            i <= a@.len() == b@.len(),
            a@.take(i as int) == b@.take(i as int),
        decreases a@.len() - i,
    {
        if a[i] != b[i] {
            return false;
        }
        assert(a@.take(i + 1) =~= a@.take(i as int).push(a@[i as int]));
        assert(b@.take(i + 1) =~= b@.take(i as int).push(b@[i as int]));
        i = i + 1;
    }
    assert(a@.take(i as int) =~= a@);
    assert(b@.take(i as int) =~= b@);
    true
}

proof fn lemma_digits_value_prefix(s: Seq<u8>, i: int)
    requires
        all_digits(s),
        0 <= i <= s.len(),
    ensures
        digits_value(s.take(i)) <= digits_value(s),
    decreases s.len(),
{
    if i < s.len() {
        let d = s.drop_last();
        assert(all_digits(d)) by {
            assert forall|k: int| 0 <= k < d.len() implies is_digit(#[trigger] d[k]) by {
                assert(d[k] == s[k]);
            }
        }
        lemma_digits_value_prefix(d, i);
        assert(d.take(i) =~= s.take(i));
        assert(is_digit(s[s.len() - 1]));
    } else {
        assert(s.take(i) =~= s);
    }
}

fn parse_u32(t: &[u8]) -> (r: Option<u32>)
    ensures
        r == parse_decimal(t@),
{
    if t.len() > 0 && t[0] == PLUS_SIGN {
        let digits = &t[1..t.len()];
        assert(digits@ =~= t@.subrange(1, t@.len() as int));
        parse_digits_u32(digits)
    } else {
        parse_digits_u32(t)
    }
}

fn parse_digits_u32(t: &[u8]) -> (r: Option<u32>)
    ensures
        r == parse_digits(t@),
{
    if t.len() == 0 {
        return None;
    }
    let mut acc: u64 = 0;
    let mut i: usize = 0;
    assert(t@.take(0) =~= Seq::<u8>::empty());
    while i < t.len()
        invariant
            0 < t@.len(),
            i <= t@.len(),
            all_digits(t@.take(i as int)),
            acc == digits_value(t@.take(i as int)),
            acc <= u32::MAX,
        decreases t@.len() - i,
    {
        let c = t[i];
        if c < DIGIT_ZERO || c > DIGIT_ZERO + 9 {
            assert(!is_digit(t@[i as int]));
            return None;
        }
        assert(t@.take(i + 1).drop_last() =~= t@.take(i as int));
        acc = acc * 10 + (c - DIGIT_ZERO) as u64;
        assert(all_digits(t@.take(i + 1))) by {
            assert forall|k: int| 0 <= k < i + 1 implies is_digit(#[trigger] t@.take(i + 1)[k]) by {
                if k < i {
                    assert(t@.take(i + 1)[k] == t@.take(i as int)[k]);
                }
            }
        }
        if acc > u32::MAX as u64 {
            proof {
                if all_digits(t@) {
                    lemma_digits_value_prefix(t@, i + 1);
                }
            }
            return None;
        }
        i = i + 1;
    }
    assert(t@.take(i as int) =~= t@);
    Some(acc as u32)
}

fn state_from_token(t: &[u8]) -> (r: Option<MachineState>)
    ensures
        r == state_of(t@),
{
    let stop = [('S' as u8), ('T' as u8), ('O' as u8), ('P' as u8)];
    let run = [('R' as u8), ('U' as u8), ('N' as u8)];
    let emerg = [('E' as u8), ('M' as u8), ('E' as u8), ('R' as u8), ('G' as u8)];
    let error = [('E' as u8), ('R' as u8), ('R' as u8), ('O' as u8), ('R' as u8)];
    assert(stop@ =~= state_token(MachineState::Stopped));
    assert(run@ =~= state_token(MachineState::Running));
    assert(emerg@ =~= state_token(MachineState::EmergencyStop));
    assert(error@ =~= state_token(MachineState::Error));
    if bytes_equal(&stop, t) {
        Some(MachineState::Stopped)
    } else if bytes_equal(&run, t) {
        Some(MachineState::Running)
    } else if bytes_equal(&emerg, t) {
        Some(MachineState::EmergencyStop)
    } else if bytes_equal(&error, t) {
        Some(MachineState::Error)
    } else {
        None
    }
}

fn direction_from_token(t: &[u8]) -> (r: Option<bool>)
    ensures
        r == direction_of(t@),
{
    let forward = [('F' as u8)];
    let reverse = [('R' as u8)];
    assert(forward@ =~= seq![direction_letter(false)]);
    assert(reverse@ =~= seq![direction_letter(true)]);
    if bytes_equal(&forward, t) {
        Some(false)
    } else if bytes_equal(&reverse, t) {
        Some(true)
    } else {
        None
    }
}

/// Decodes the first status frame in a reply buffer: the buffer is read up to its
/// first NUL, the frame runs from the first `;` to the next line feed, and its
/// first five space-separated fields give state, direction, target speed, speed and
/// power; fewer than five is malformed, and fields after the fifth are ignored.
pub fn decode_status(buf: &[u8]) -> (r: Result<SpindleState, CodecError>)
    ensures
        r == decode_reply(buf@),
{
    let end = find_byte(buf, NUL, 0, buf.len());
    let open = find_byte(buf, SEMICOLON, 0, end);
    if open >= end {
        return Err(CodecError::FrameMissing);
    }
    let close = find_byte(buf, LINE_FEED, open + 1, end);
    if close >= end {
        return Err(CodecError::FrameMissing);
    }
    let body = strip_range(buf, open + 1, close);
    let tokens = split_tokens(&body);
    if tokens.len() < 5 {
        return Err(CodecError::FrameMalformed);
    }
    let state = match state_from_token(tokens[0].as_slice()) {
        Some(m) => m,
        None => return Err(CodecError::ParseState),
    };
    let direction = match direction_from_token(tokens[1].as_slice()) {
        Some(d) => d,
        None => return Err(CodecError::ParseDirection),
    };
    let target_speed = match parse_u32(tokens[2].as_slice()) {
        Some(v) => v,
        None => return Err(CodecError::ParseTargetSpeed),
    };
    let speed = match parse_u32(tokens[3].as_slice()) {
        Some(v) => v,
        None => return Err(CodecError::ParseSpeed),
    };
    let power = match parse_u32(tokens[4].as_slice()) {
        Some(v) => v,
        None => return Err(CodecError::ParsePower),
    };
    Ok(SpindleState { state, direction, target_speed, speed, power })
}


/// Encoding depends on the command alone: equal commands are put on the wire as
/// byte-identical frames.
pub proof fn lemma_encoding_deterministic(a: Command, b: Command)
    requires
        a == b,
    ensures
        frame_of(a) == frame_of(b),
{
}

/// A status line as it stands on the wire: `;`, a body with no line feed and no
/// NUL, and a closing line feed.
pub open spec fn is_status_line(f: Seq<u8>) -> bool {
    &&& f.len() >= 2
    &&& f[0] == SEMICOLON
    &&& f.last() == LINE_FEED
    &&& forall|k: int| 0 <= k < f.len() ==> #[trigger] f[k] != NUL
    &&& forall|k: int| 0 <= k < f.len() - 1 ==> #[trigger] f[k] != LINE_FEED
}

/// Bytes that may precede a frame without hiding it: no `;` and no NUL.
pub open spec fn is_leading_noise(pre: Seq<u8>) -> bool {
    forall|k: int| 0 <= k < pre.len() ==> #[trigger] pre[k] != SEMICOLON && pre[k] != NUL
}

proof fn lemma_find_in_bounds(s: Seq<u8>, b: u8, i: int, end: int)
    requires
        i <= end,
    ensures
        i <= find_in(s, b, i, end) <= end,
    decreases end - i,
{
    if i < end && s[i] != b {
        lemma_find_in_bounds(s, b, i + 1, end);
    }
}

proof fn lemma_find_in_skip(s: Seq<u8>, b: u8, i: int, j: int, end: int)
    requires
        i <= j <= end,
        forall|k: int| i <= k < j ==> #[trigger] s[k] != b,
    ensures
        find_in(s, b, i, end) == find_in(s, b, j, end),
    decreases j - i,
{
    if i < j {
        lemma_find_in_skip(s, b, i + 1, j, end);
    }
}

proof fn lemma_payload_of_embedded_line(pre: Seq<u8>, f: Seq<u8>, suf: Seq<u8>)
    requires
        is_status_line(f),
        is_leading_noise(pre),
    ensures
        frame_payload(pre + f + suf) == Some(f.subrange(1, f.len() - 1)),
{
    let s = pre + f + suf;
    let n = pre.len() as int;
    let m = n + f.len();
    assert forall|k: int| 0 <= k < m implies #[trigger] s[k] != NUL by {
        if k < n {
            assert(s[k] == pre[k]);
        } else {
            assert(s[k] == f[k - n]);
        }
    }
    lemma_find_in_skip(s, NUL, 0, m, s.len() as int);
    lemma_find_in_bounds(s, NUL, m, s.len() as int);
    let end = find_in(s, NUL, 0, s.len() as int);
    assert forall|k: int| 0 <= k < n implies #[trigger] s[k] != SEMICOLON by {
        assert(s[k] == pre[k]);
    }
    lemma_find_in_skip(s, SEMICOLON, 0, n, end);
    assert(s[n] == f[0]);
    assert(find_in(s, SEMICOLON, 0, end) == n);
    assert forall|k: int| n + 1 <= k < m - 1 implies #[trigger] s[k] != LINE_FEED by {
        assert(s[k] == f[k - n]);
    }
    lemma_find_in_skip(s, LINE_FEED, n + 1, m - 1, end);
    assert(s[m - 1] == f[f.len() - 1]);
    assert(find_in(s, LINE_FEED, n + 1, end) == m - 1);
    assert(s.subrange(n + 1, m - 1) =~= f.subrange(1, f.len() - 1));
}

/// A status line decodes the same wherever it stands: after noise that holds no `;`
/// and no NUL, and before any suffix at all (NUL padding, garbage, further frames).
pub proof fn lemma_decode_ignores_surroundings(pre: Seq<u8>, f: Seq<u8>, suf: Seq<u8>)
    requires
        is_status_line(f),
        is_leading_noise(pre),
    ensures
        decode_reply(pre + f + suf) == decode_reply(f),
{
    let e = Seq::<u8>::empty();
    lemma_payload_of_embedded_line(pre, f, suf);
    assert(is_leading_noise(e));
    lemma_payload_of_embedded_line(e, f, e);
    assert(e + f + e =~= f);
}

/// A buffer of zeros holds no frame.
pub proof fn lemma_zeroed_buffer_has_no_frame(buf: Seq<u8>)
    requires
        forall|k: int| 0 <= k < buf.len() ==> #[trigger] buf[k] == NUL,
    ensures
        decode_reply(buf) == Err::<SpindleState, CodecError>(CodecError::FrameMissing),
{
    if buf.len() > 0 {
        assert(buf[0] == NUL);
    }
    assert(find_in(buf, NUL, 0, buf.len() as int) == 0);
}


/// The status line that reports `s`, as the controller sends it.
pub open spec fn status_line(s: SpindleState) -> Seq<u8> {
    seq![SEMICOLON] + status_body(s) + seq![LINE_FEED]
}

pub open spec fn status_body(s: SpindleState) -> Seq<u8> {
    state_token(s.state) + seq![SPACE] + seq![direction_letter(s.direction)] + seq![SPACE]
        + decimal(s.target_speed as nat) + seq![SPACE] + decimal(s.speed as nat) + seq![SPACE]
        + decimal(s.power as nat)
}

proof fn lemma_decimal_digits(n: nat)
    ensures
        decimal(n).len() >= 1,
        all_digits(decimal(n)),
        digits_value(decimal(n)) == n,
    decreases n,
{
    if n >= 10 {
        lemma_decimal_digits(n / 10);
        let d = decimal(n);
        assert(d.drop_last() =~= decimal(n / 10));
        assert(d.last() == (DIGIT_ZERO + n % 10) as u8);
        assert(n == (n / 10) * 10 + n % 10) by (nonlinear_arith);
        assert forall|k: int| 0 <= k < d.len() implies is_digit(#[trigger] d[k]) by {
            if k < d.len() - 1 {
                assert(d[k] == decimal(n / 10)[k]);
            }
        }
    } else {
        assert(decimal(n).drop_last() =~= Seq::<u8>::empty());
        assert(decimal(n).last() == (DIGIT_ZERO + n) as u8);
        assert(digits_value(Seq::<u8>::empty()) == 0);
    }
}

proof fn lemma_parse_decimal_of_decimal(n: u32)
    ensures
        parse_decimal(decimal(n as nat)) == Some(n),
{
    lemma_decimal_digits(n as nat);
    assert(is_digit(decimal(n as nat)[0]));
}

proof fn lemma_split_nonempty(s: Seq<u8>)
    ensures
        split_spaces(s).len() >= 1,
    decreases s.len(),
{
    if s.len() > 0 {
        lemma_split_nonempty(s.drop_last());
    }
}

proof fn lemma_split_without_space(t: Seq<u8>)
    requires
        forall|k: int| 0 <= k < t.len() ==> #[trigger] t[k] != SPACE,
    ensures
        split_spaces(t) == seq![t],
    decreases t.len(),
{
    if t.len() > 0 {
        let d = t.drop_last();
        lemma_split_without_space(d);
        assert(t[t.len() - 1] != SPACE);
        assert(d.push(t.last()) =~= t);
        assert(split_spaces(t) =~= seq![t]);
    } else {
        assert(t =~= Seq::<u8>::empty());
    }
}

proof fn lemma_split_at_space(a: Seq<u8>, b: Seq<u8>)
    ensures
        split_spaces(a + seq![SPACE] + b) == split_spaces(a) + split_spaces(b),
    decreases b.len(),
{
    let ab = a + seq![SPACE] + b;
    if b.len() == 0 {
        assert((a + seq![SPACE] + b).drop_last() =~= a);
        assert(split_spaces(a) + split_spaces(b) =~= split_spaces(a).push(Seq::empty()));
    } else {
        let b0 = b.drop_last();
        lemma_split_at_space(a, b0);
        lemma_split_nonempty(b0);
        assert(ab.drop_last() =~= a + seq![SPACE] + b0);
        assert(ab.last() == b.last());
        let x = split_spaces(a);
        let y = split_spaces(b0);
        if b.last() == SPACE {
            assert(split_spaces(ab) =~= x + split_spaces(b));
        } else {
            assert((x + y).update((x + y).len() - 1, (x + y).last().push(b.last())) =~= x + y.update(
                y.len() - 1,
                y.last().push(b.last()),
            ));
        }
    }
}

proof fn lemma_strip_without_line_ends(s: Seq<u8>)
    requires
        forall|k: int| 0 <= k < s.len() ==> #[trigger] s[k] != CARRIAGE_RETURN && s[k] != LINE_FEED,
    ensures
        strip_line_ends(s) == s,
    decreases s.len(),
{
    if s.len() > 0 {
        lemma_strip_without_line_ends(s.drop_last());
        assert(s[s.len() - 1] != CARRIAGE_RETURN);
        assert(s.drop_last().push(s.last()) =~= s);
    }
}

/// A byte that may stand inside a field: not a space, `;`, line end or NUL.
spec fn is_field_byte(c: u8) -> bool {
    c != SPACE && c != SEMICOLON && c != LINE_FEED && c != CARRIAGE_RETURN && c != NUL
}

spec fn is_field(t: Seq<u8>) -> bool {
    forall|k: int| 0 <= k < t.len() ==> is_field_byte(#[trigger] t[k])
}

proof fn lemma_decimal_is_field(n: nat)
    ensures
        is_field(decimal(n)),
{
    lemma_decimal_digits(n);
    assert forall|k: int| 0 <= k < decimal(n).len() implies is_field_byte(#[trigger] decimal(n)[k]) by {
        assert(is_digit(decimal(n)[k]));
    }
}

proof fn lemma_state_token(m: MachineState)
    requires
        m != MachineState::Offline,
    ensures
        is_field(state_token(m)),
        state_of(state_token(m)) == Some(m),
{
    let t = state_token(m);
    assert forall|k: int| 0 <= k < t.len() implies is_field_byte(#[trigger] t[k]) by {}
    assert(state_token(MachineState::EmergencyStop)[1] != state_token(MachineState::Error)[1]);
}

/// The status line of any state but `Offline` decodes back to that state, also
/// after noise that holds no `;` and no NUL, and before any suffix.
pub proof fn lemma_status_line_round_trip(s: SpindleState, pre: Seq<u8>, suf: Seq<u8>)
    requires
        s.state != MachineState::Offline,
        is_leading_noise(pre),
    ensures
        decode_reply(pre + status_line(s) + suf) == Ok::<SpindleState, CodecError>(s),
{
    let t0 = state_token(s.state);
    let t1 = seq![direction_letter(s.direction)];
    let t2 = decimal(s.target_speed as nat);
    let t3 = decimal(s.speed as nat);
    let t4 = decimal(s.power as nat);
    lemma_state_token(s.state);
    lemma_decimal_is_field(s.target_speed as nat);
    lemma_decimal_is_field(s.speed as nat);
    lemma_decimal_is_field(s.power as nat);
    assert(is_field(t1));
    lemma_parse_decimal_of_decimal(s.target_speed);
    lemma_parse_decimal_of_decimal(s.speed);
    lemma_parse_decimal_of_decimal(s.power);
    let sp = seq![SPACE];
    let body = status_body(s);
    assert(body =~= t0 + sp + t1 + sp + t2 + sp + t3 + sp + t4);
    assert forall|k: int| 0 <= k < body.len() implies #[trigger] body[k] != CARRIAGE_RETURN
        && body[k] != LINE_FEED && body[k] != NUL by {
        let a = t0.len() as int;
        let b = a + 1 + 1;
        let c = b + 1 + t2.len();
        let d = c + 1 + t3.len();
        if k < a {
            assert(body[k] == t0[k]);
        } else if k == a || k == a + 2 || k == c || k == d {
        } else if k == a + 1 {
        } else if k < c {
            assert(body[k] == t2[k - b - 1]);
        } else if k < d {
            assert(body[k] == t3[k - c - 1]);
        } else {
            assert(body[k] == t4[k - d - 1]);
        }
    }
    let f = status_line(s);
    assert forall|k: int| 0 <= k < f.len() implies #[trigger] f[k] != NUL by {
        if 0 < k < f.len() - 1 {
            assert(f[k] == body[k - 1]);
        }
    }
    assert forall|k: int| 0 <= k < f.len() - 1 implies #[trigger] f[k] != LINE_FEED by {
        if 0 < k {
            assert(f[k] == body[k - 1]);
        }
    }
    assert(is_status_line(f));
    lemma_payload_of_embedded_line(pre, f, suf);
    assert(f.subrange(1, f.len() - 1) =~= body);
    lemma_strip_without_line_ends(body);
    lemma_split_without_space(t0);
    lemma_split_without_space(t1);
    lemma_split_without_space(t2);
    lemma_split_without_space(t3);
    lemma_split_without_space(t4);
    lemma_split_at_space(t0, t1);
    lemma_split_at_space(t0 + sp + t1, t2);
    lemma_split_at_space(t0 + sp + t1 + sp + t2, t3);
    lemma_split_at_space(t0 + sp + t1 + sp + t2 + sp + t3, t4);
    let toks = split_spaces(body);
    assert(toks =~= seq![t0, t1, t2, t3, t4]);
}

} // verus!
