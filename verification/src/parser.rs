//! The build-script parser: line-oriented, whitespace-trimmed, case-sensitive
//! on the leading keyword. Malformed or unrecognized lines parse to nothing
//! and are silently dropped by [`parse_file`].

use vstd::prelude::*;
use crate::instruction::{Instruction, InstructionV};
use crate::text::{
    is_space, is_space_char, spec_index_of, lemma_index_of_props, lemma_index_of_shift,
    lemma_index_of_value, find_char, find_char_from, spec_trim, trim, has_prefix, starts_with,
    lemma_trim_of_clean, lemma_trimmed_ends_clean, drop_leading, drop_trailing,
};

verus! {

// ---------------------------------------------------------------------------
// Decimal port numbers
// ---------------------------------------------------------------------------

/// `c` is a decimal digit.
pub open spec fn is_digit(c: char) -> bool {
    48 <= c as int && c as int <= 57
}

/// The value of a decimal digit.
pub open spec fn digit_val(c: char) -> int {
    c as int - 48
}

/// Every character of `s` is a decimal digit.
pub open spec fn all_digits(s: Seq<char>) -> bool {
    forall|i: int| 0 <= i < s.len() ==> is_digit(s[i])
}

/// The value of a digit string, most significant digit first.
pub open spec fn digits_val(s: Seq<char>) -> int
    decreases s.len(),
{
    if s.len() == 0 {
        0
    } else {
        digits_val(s.subrange(0, s.len() - 1)) * 10 + digit_val(s[s.len() - 1])
    }
}

/// `s` with one leading `+` sign removed, as the unsigned integer parser
/// accepts it.
pub open spec fn sign_stripped(s: Seq<char>) -> Seq<char> {
    if s.len() > 0 && s[0] == '+' {
        s.subrange(1, s.len() as int)
    } else {
        s
    }
}

/// What parsing a port number returns: after an optional `+` sign, a
/// nonempty digit string whose value is at most 65535; anything else fails.
pub open spec fn spec_parse_u16(s: Seq<char>) -> Option<u16> {
    let d = sign_stripped(s);
    if d.len() > 0 && all_digits(d) && digits_val(d) <= 65535 {
        Some(digits_val(d) as u16)
    } else {
        None
    }
}

proof fn lemma_digits_val_nonneg(s: Seq<char>)
    requires
        all_digits(s),
    ensures
        digits_val(s) >= 0,
    decreases s.len(),
{
    if s.len() > 0 {
        let s1 = s.subrange(0, s.len() - 1);
        assert(all_digits(s1));
        lemma_digits_val_nonneg(s1);
    }
}

proof fn lemma_digits_val_step(s: Seq<char>, i: int)
    requires
        0 <= i < s.len(),
    ensures
        digits_val(s.subrange(0, i + 1)) == digits_val(s.subrange(0, i)) * 10 + digit_val(s[i]),
{
    let t = s.subrange(0, i + 1);
    assert(t.subrange(0, t.len() - 1) =~= s.subrange(0, i));
    assert(t[t.len() - 1] == s[i]);
}

proof fn lemma_digits_val_prefix_le(s: Seq<char>, i: int)
    requires
        all_digits(s),
        0 <= i <= s.len(),
    ensures
        digits_val(s) >= digits_val(s.subrange(0, i)),
    decreases s.len() - i,
{
    let p = s.subrange(0, i);
    assert(all_digits(p));
    lemma_digits_val_nonneg(p);
    if i < s.len() {
        lemma_digits_val_step(s, i);
        assert(digits_val(s.subrange(0, i + 1)) >= digits_val(p));
        lemma_digits_val_prefix_le(s, i + 1);
    } else {
        assert(s.subrange(0, i) =~= s);
    }
}

/// Parse a decimal port number as an unsigned 16-bit integer: an optional
/// leading `+`, then at least one digit, value at most 65535.
pub fn parse_port(s: &str) -> (r: Option<u16>)
    ensures
        r == spec_parse_u16(s@),
{
    let n = s.unicode_len();
    let start: usize = if n > 0 && s.get_char(0) == '+' {
        1
    } else {
        0
    };
    proof {
        assert(sign_stripped(s@) =~= s@.subrange(start as int, s@.len() as int));
    }
    if start >= n {
        return None;
    }
    let ghost d = sign_stripped(s@);
    let mut acc: u32 = 0;
    let mut i: usize = start;
    while i < n
        invariant
            start <= i <= n,
            n == s@.len(),
            start + d.len() == n,
            d == sign_stripped(s@),
            d =~= s@.subrange(start as int, s@.len() as int),
            acc <= 65535,
            all_digits(d.subrange(0, i - start)),
            acc == digits_val(d.subrange(0, i - start)),
        decreases n - i,
    {
        let c = s.get_char(i);
        let v = c as u32;
        if v < 48 || v > 57 {
            proof {
                assert(d[i - start] == s@[i as int]);
                assert(!is_digit(d[i - start]));
            }
            return None;
        }
        proof {
            assert(d[i - start] == s@[i as int]);
            assert(d.subrange(0, i - start + 1).subrange(0, i - start) =~= d.subrange(
                0,
                i - start,
            ));
            lemma_digits_val_step(d, i - start);
        }
        acc = acc * 10 + (v - 48);
        if acc > 65535 {
            proof {
                if all_digits(d) {
                    lemma_digits_val_prefix_le(d, i - start + 1);
                }
            }
            return None;
        }
        i = i + 1;
    }
    proof {
        assert(d.subrange(0, i - start) =~= d);
    }
    Some(acc as u16)
}

// ---------------------------------------------------------------------------
// Whitespace-separated tokens
// ---------------------------------------------------------------------------

/// The end of the token that starts at `i`: the least index `j >= i` that is
/// past the end of `s` or holds whitespace.
pub open spec fn tok_end(s: Seq<char>, i: int) -> int
    decreases s.len() - i,
{
    if i < 0 || i >= s.len() || is_space(s[i]) {
        i
    } else {
        tok_end(s, i + 1)
    }
}

pub proof fn lemma_tok_end_bounds(s: Seq<char>, i: int)
    requires
        0 <= i <= s.len(),
    ensures
        i <= tok_end(s, i) <= s.len(),
        tok_end(s, i) < s.len() ==> is_space(s[tok_end(s, i)]),
        forall|j: int| i <= j < tok_end(s, i) ==> !is_space(s[j]),
        i < s.len() && !is_space(s[i]) ==> tok_end(s, i) > i,
    decreases s.len() - i,
{
    if i < s.len() && !is_space(s[i]) {
        lemma_tok_end_bounds(s, i + 1);
    }
}

/// The whitespace-separated tokens of `s` at or after `i`: maximal nonempty
/// runs of non-whitespace characters, in order.
pub open spec fn spec_split_ws_from(s: Seq<char>, i: int) -> Seq<Seq<char>>
    decreases s.len() - i,
        when 0 <= i <= s.len()
        via spec_split_ws_from_decreases
{
    if i >= s.len() {
        Seq::empty()
    } else if is_space(s[i]) {
        spec_split_ws_from(s, i + 1)
    } else {
        seq![s.subrange(i, tok_end(s, i))] + spec_split_ws_from(s, tok_end(s, i))
    }
}

#[via_fn]
proof fn spec_split_ws_from_decreases(s: Seq<char>, i: int) {
    if 0 <= i && i < s.len() && !is_space(s[i]) {
        lemma_tok_end_bounds(s, i);
    }
}

/// The whitespace-separated tokens of `s`.
pub open spec fn spec_split_ws(s: Seq<char>) -> Seq<Seq<char>> {
    spec_split_ws_from(s, 0)
}

/// Split `s` into its whitespace-separated tokens.
pub fn split_ws(s: &str) -> (r: Vec<String>)
    ensures
        r.deep_view() == spec_split_ws(s@),
{
    let n = s.unicode_len();
    let mut out: Vec<String> = Vec::new();
    let mut i: usize = 0;
    proof {
        assert(out.deep_view() =~= Seq::<Seq<char>>::empty());
        assert(Seq::<Seq<char>>::empty() + spec_split_ws(s@) =~= spec_split_ws(s@));
    }
    while i < n
        invariant
            0 <= i <= n,
            n == s@.len(),
            spec_split_ws(s@) == out.deep_view() + spec_split_ws_from(s@, i as int),
        decreases n - i,
    {
        if is_space_char(s.get_char(i)) {
            i = i + 1;
        } else {
            let start = i;
            while i < n && !is_space_char(s.get_char(i))
                invariant
                    start <= i <= n,
                    n == s@.len(),
                    !is_space(s@[start as int]),
                    start < n,
                    tok_end(s@, start as int) == tok_end(s@, i as int),
                decreases n - i,
            {
                i = i + 1;
            }
            proof {
                assert(tok_end(s@, i as int) == i);
                lemma_tok_end_bounds(s@, start as int);
            }
            let tok = s.substring_char(start, i).to_owned();
            let ghost pre = out.deep_view();
            let ghost tv = tok@;
            out.push(tok);
            proof {
                assert(out.deep_view() =~= pre.push(tv));
                assert(spec_split_ws_from(s@, start as int) == seq![
                    s@.subrange(start as int, i as int),
                ] + spec_split_ws_from(s@, i as int));
                assert(pre.push(tv) + spec_split_ws_from(s@, i as int) =~= pre + (seq![tv]
                    + spec_split_ws_from(s@, i as int)));
            }
        }
    }
    proof {
        assert(out.deep_view() + spec_split_ws_from(s@, n as int) =~= out.deep_view());
    }
    out
}

// ---------------------------------------------------------------------------
// Lines
// ---------------------------------------------------------------------------

/// A line with its terminating carriage return removed, as it stands before
/// a line feed.
pub open spec fn strip_cr(line: Seq<char>) -> Seq<char> {
    if line.len() > 0 && line[line.len() - 1] == '\r' {
        line.subrange(0, line.len() - 1)
    } else {
        line
    }
}

/// The lines of `s`: split at `\n`, a `\r` directly before the `\n` removed;
/// a final line without a terminator is kept verbatim, and a trailing
/// terminator yields no extra empty line.
pub open spec fn spec_lines(s: Seq<char>) -> Seq<Seq<char>>
    decreases s.len(),
{
    if s.len() == 0 {
        Seq::empty()
    } else {
        let k = spec_index_of(s, '\n', 0);
        if 0 <= k && k < s.len() {
            seq![strip_cr(s.subrange(0, k))] + spec_lines(s.subrange(k + 1, s.len() as int))
        } else {
            seq![s]
        }
    }
}

/// Split `s` into its lines.
pub fn lines_of(s: &str) -> (r: Vec<String>)
    ensures
        r.deep_view() == spec_lines(s@),
{
    let n = s.unicode_len();
    let mut out: Vec<String> = Vec::new();
    let mut pos: usize = 0;
    proof {
        assert(out.deep_view() =~= Seq::<Seq<char>>::empty());
        assert(s@.subrange(0, n as int) =~= s@);
        assert(Seq::<Seq<char>>::empty() + spec_lines(s@) =~= spec_lines(s@));
    }
    while pos < n
        invariant
            0 <= pos <= n,
            n == s@.len(),
            spec_lines(s@) == out.deep_view() + spec_lines(s@.subrange(pos as int, n as int)),
        decreases n - pos,
    {
        let ghost suffix = s@.subrange(pos as int, n as int);
        let k = find_char_from(s, '\n', pos);
        proof {
            lemma_index_of_shift(s@, '\n', pos as int, 0);
            assert(spec_index_of(suffix, '\n', 0) == k - pos);
            lemma_index_of_props(suffix, '\n', 0);
        }
        let line_end = if k < n && k > pos && s.get_char(k - 1) == '\r' {
            k - 1
        } else {
            k
        };
        let line = s.substring_char(pos, line_end).to_owned();
        let ghost pre = out.deep_view();
        let ghost lv = line@;
        out.push(line);
        proof {
            assert(out.deep_view() =~= pre.push(lv));
            if k < n {
                let head = suffix.subrange(0, k - pos);
                assert(head =~= s@.subrange(pos as int, k as int));
                assert(strip_cr(head) =~= lv);
                let rest = suffix.subrange(k - pos + 1, suffix.len() as int);
                assert(rest =~= s@.subrange(k + 1, n as int));
                assert(spec_lines(suffix) == seq![strip_cr(head)] + spec_lines(rest));
                assert(pre.push(lv) + spec_lines(rest) =~= pre + (seq![lv] + spec_lines(rest)));
            } else {
                assert(suffix =~= lv);
                assert(spec_lines(suffix) == seq![lv]);
                assert(pre.push(lv) + spec_lines(s@.subrange(n as int, n as int)) =~= pre + seq![
                    lv,
                ]);
            }
        }
        pos = if k < n {
            k + 1
        } else {
            n
        };
    }
    proof {
        assert(out.deep_view() + spec_lines(s@.subrange(n as int, n as int)) =~= out.deep_view());
    }
    out
}

// ---------------------------------------------------------------------------
// Instruction lines
// ---------------------------------------------------------------------------

pub open spec fn kw_from() -> Seq<char> {
    seq!['F', 'R', 'O', 'M', ' ']
}

pub open spec fn kw_run() -> Seq<char> {
    seq!['R', 'U', 'N', ' ']
}

pub open spec fn kw_copy() -> Seq<char> {
    seq!['C', 'O', 'P', 'Y', ' ']
}

pub open spec fn kw_cmd() -> Seq<char> {
    seq!['C', 'M', 'D', ' ']
}

pub open spec fn kw_workdir() -> Seq<char> {
    seq!['W', 'O', 'R', 'K', 'D', 'I', 'R', ' ']
}

pub open spec fn kw_expose() -> Seq<char> {
    seq!['E', 'X', 'P', 'O', 'S', 'E', ' ']
}

pub open spec fn kw_env() -> Seq<char> {
    seq!['E', 'N', 'V', ' ']
}

pub open spec fn kw_entrypoint() -> Seq<char> {
    seq!['E', 'N', 'T', 'R', 'Y', 'P', 'O', 'I', 'N', 'T', ' ']
}

pub open spec fn kw_add() -> Seq<char> {
    seq!['A', 'D', 'D', ' ']
}

/// What parsing one line returns. The line is trimmed; the first matching
/// keyword prefix decides the variant; `FROM`, `RUN`, `CMD`, `WORKDIR` and
/// `ENTRYPOINT` take the rest of the trimmed line verbatim; `COPY` and `ADD`
/// need exactly two whitespace-separated tokens; `EXPOSE` needs a port
/// number; `ENV` splits once on the first `=` and trims both sides; any
/// other line parses to nothing.
pub open spec fn spec_parse_line(line: Seq<char>) -> Option<InstructionV> {
    let t = spec_trim(line);
    if has_prefix(t, kw_from()) {
        Some(InstructionV::FromImage(t.subrange(5, t.len() as int)))
    } else if has_prefix(t, kw_run()) {
        Some(InstructionV::Run(t.subrange(4, t.len() as int)))
    } else if has_prefix(t, kw_copy()) {
        let parts = spec_split_ws(t.subrange(5, t.len() as int));
        if parts.len() == 2 {
            Some(InstructionV::Copy { src: parts[0], dest: parts[1] })
        } else {
            None
        }
    } else if has_prefix(t, kw_cmd()) {
        Some(InstructionV::Cmd(t.subrange(4, t.len() as int)))
    } else if has_prefix(t, kw_workdir()) {
        Some(InstructionV::Workdir(t.subrange(8, t.len() as int)))
    } else if has_prefix(t, kw_expose()) {
        match spec_parse_u16(t.subrange(7, t.len() as int)) {
            Some(p) => Some(InstructionV::Expose(p)),
            None => None,
        }
    } else if has_prefix(t, kw_env()) {
        let payload = t.subrange(4, t.len() as int);
        let k = spec_index_of(payload, '=', 0);
        if 0 <= k && k < payload.len() {
            Some(
                InstructionV::Env {
                    key: spec_trim(payload.subrange(0, k)),
                    value: spec_trim(payload.subrange(k + 1, payload.len() as int)),
                },
            )
        } else {
            None
        }
    } else if has_prefix(t, kw_entrypoint()) {
        Some(InstructionV::EntryPoint(t.subrange(11, t.len() as int)))
    } else if has_prefix(t, kw_add()) {
        let parts = spec_split_ws(t.subrange(4, t.len() as int));
        if parts.len() == 2 {
            Some(InstructionV::Add { src: parts[0], dest: parts[1] })
        } else {
            None
        }
    } else {
        None
    }
}

/// The rest of `t` from character index `k` on, as an owned string.
fn rest_of(t: &str, k: usize) -> (r: String)
    requires
        k <= t@.len(),
    ensures
        r@ == t@.subrange(k as int, t@.len() as int),
{
    t.substring_char(k, t.unicode_len()).to_owned()
}

/// Parse one build-script line, as [`spec_parse_line`] describes.
pub fn parse_line(line: &str) -> (r: Option<Instruction>)
    ensures
        match r {
            Some(inst) => spec_parse_line(line@) == Some(inst@),
            None => spec_parse_line(line@) is None,
        },
{
    let t = trim(line);
    proof {
        reveal_strlit("FROM ");
        reveal_strlit("RUN ");
        reveal_strlit("COPY ");
        reveal_strlit("CMD ");
        reveal_strlit("WORKDIR ");
        reveal_strlit("EXPOSE ");
        reveal_strlit("ENV ");
        reveal_strlit("ENTRYPOINT ");
        reveal_strlit("ADD ");
        assert("FROM "@ =~= kw_from());
        assert("RUN "@ =~= kw_run());
        assert("COPY "@ =~= kw_copy());
        assert("CMD "@ =~= kw_cmd());
        assert("WORKDIR "@ =~= kw_workdir());
        assert("EXPOSE "@ =~= kw_expose());
        assert("ENV "@ =~= kw_env());
        assert("ENTRYPOINT "@ =~= kw_entrypoint());
        assert("ADD "@ =~= kw_add());
    }
    if starts_with(t, "FROM ") {
        Some(Instruction::FromImage(rest_of(t, 5)))
    } else if starts_with(t, "RUN ") {
        Some(Instruction::Run(rest_of(t, 4)))
    } else if starts_with(t, "COPY ") {
        let payload = rest_of(t, 5);
        let mut parts = split_ws(payload.as_str());
        if parts.len() == 2 {
            let ghost pv = parts.deep_view();
            proof {
                assert(pv[0] == parts@[0]@);
                assert(pv[1] == parts@[1]@);
            }
            let dest = parts.pop().unwrap();
            let src = parts.pop().unwrap();
            Some(Instruction::Copy { src, dest })
        } else {
            None
        }
    } else if starts_with(t, "CMD ") {
        Some(Instruction::Cmd(rest_of(t, 4)))
    } else if starts_with(t, "WORKDIR ") {
        Some(Instruction::Workdir(rest_of(t, 8)))
    } else if starts_with(t, "EXPOSE ") {
        let payload = rest_of(t, 7);
        match parse_port(payload.as_str()) {
            Some(p) => Some(Instruction::Expose(p)),
            None => None,
        }
    } else if starts_with(t, "ENV ") {
        let payload = rest_of(t, 4);
        let p = payload.as_str();
        let n = p.unicode_len();
        let k = find_char(p, '=');
        if k < n {
            let key = trim(p.substring_char(0, k)).to_owned();
            let value = trim(p.substring_char(k + 1, n)).to_owned();
            Some(Instruction::Env { key, value })
        } else {
            None
        }
    } else if starts_with(t, "ENTRYPOINT ") {
        Some(Instruction::EntryPoint(rest_of(t, 11)))
    } else if starts_with(t, "ADD ") {
        let payload = rest_of(t, 4);
        let mut parts = split_ws(payload.as_str());
        if parts.len() == 2 {
            let ghost pv = parts.deep_view();
            proof {
                assert(pv[0] == parts@[0]@);
                assert(pv[1] == parts@[1]@);
            }
            let dest = parts.pop().unwrap();
            let src = parts.pop().unwrap();
            Some(Instruction::Add { src, dest })
        } else {
            None
        }
    } else {
        None
    }
}

/// The instructions the parseable lines yield, in order; lines that parse to
/// nothing are dropped.
pub open spec fn collect_instrs(lines: Seq<Seq<char>>) -> Seq<InstructionV>
    decreases lines.len(),
{
    if lines.len() == 0 {
        Seq::empty()
    } else {
        match spec_parse_line(lines[0]) {
            Some(i) => seq![i] + collect_instrs(lines.subrange(1, lines.len() as int)),
            None => collect_instrs(lines.subrange(1, lines.len() as int)),
        }
    }
}

/// What parsing a whole script returns: [`spec_parse_line`] applied to every
/// line, the failures dropped. The result is a function of the input text
/// alone.
pub open spec fn spec_parse_file(s: Seq<char>) -> Seq<InstructionV> {
    collect_instrs(spec_lines(s))
}

/// Parse a build script into its ordered instruction sequence.
pub fn parse_file(input: &str) -> (r: Vec<Instruction>)
    ensures
        r.deep_view() == spec_parse_file(input@),
{
    let lines = lines_of(input);
    let ghost lv = lines.deep_view();
    let mut out: Vec<Instruction> = Vec::new();
    let mut i: usize = 0;
    proof {
        assert(out.deep_view() =~= Seq::<InstructionV>::empty());
        assert(lv.subrange(0, lv.len() as int) =~= lv);
        assert(Seq::<InstructionV>::empty() + collect_instrs(lv) =~= collect_instrs(lv));
    }
    while i < lines.len()
        invariant
            0 <= i <= lines.len(),
            lines.deep_view() == lv,
            lv == spec_lines(input@),
            lv.len() == lines.len(),
            spec_parse_file(input@) == out.deep_view() + collect_instrs(
                lv.subrange(i as int, lv.len() as int),
            ),
        decreases lines.len() - i,
    {
        let ghost rest = lv.subrange(i as int, lv.len() as int);
        proof {
            assert(rest[0] == lv[i as int]);
            assert(rest.subrange(1, rest.len() as int) =~= lv.subrange(i + 1, lv.len() as int));
            assert(lines@[i as int]@ == lv[i as int]);
        }
        match parse_line(lines[i].as_str()) {
            Some(inst) => {
                let ghost iv = inst@;
                let ghost pre = out.deep_view();
                out.push(inst);
                proof {
                    assert(out.deep_view() =~= pre.push(iv));
                    assert(collect_instrs(rest) == seq![iv] + collect_instrs(
                        rest.subrange(1, rest.len() as int),
                    ));
                    assert(pre.push(iv) + collect_instrs(lv.subrange(i + 1, lv.len() as int))
                        =~= pre + (seq![iv] + collect_instrs(lv.subrange(i + 1, lv.len() as int))));
                }
            },
            None => {
                proof {
                    assert(collect_instrs(rest) == collect_instrs(
                        rest.subrange(1, rest.len() as int),
                    ));
                }
            },
        }
        i = i + 1;
    }
    proof {
        assert(lv.subrange(lv.len() as int, lv.len() as int) =~= Seq::<Seq<char>>::empty());
        assert(out.deep_view() + collect_instrs(Seq::<Seq<char>>::empty()) =~= out.deep_view());
    }
    out
}

// ---------------------------------------------------------------------------
// Round-trip laws
// ---------------------------------------------------------------------------

proof fn lemma_not_prefix_at(s: Seq<char>, pre: Seq<char>, i: int)
    requires
        0 <= i < pre.len(),
        i < s.len(),
        s[i] != pre[i],
    ensures
        !has_prefix(s, pre),
{
    if has_prefix(s, pre) {
        assert(s.subrange(0, pre.len() as int)[i] == s[i]);
    }
}

proof fn lemma_clean_line_trims_to_itself(s: Seq<char>)
    requires
        s.len() > 0,
        !is_space(s[0]),
        !is_space(s[s.len() - 1]),
    ensures
        spec_trim(s) == s,
{
    lemma_trim_of_clean(s);
    assert(drop_leading(s) == s);
    assert(drop_trailing(s) == s);
}

/// Every keyword that takes the rest of the line verbatim round-trips: a
/// line `<KEYWORD> <payload>`, with a payload that neither starts nor ends
/// with whitespace, parses to that keyword's instruction holding exactly the
/// payload.
pub proof fn lemma_parse_verbatim_round_trip(p: Seq<char>)
    requires
        p.len() > 0,
        !is_space(p[0]),
        !is_space(p[p.len() - 1]),
    ensures
        spec_parse_line(kw_from() + p) == Some(InstructionV::FromImage(p)),
        spec_parse_line(kw_run() + p) == Some(InstructionV::Run(p)),
        spec_parse_line(kw_cmd() + p) == Some(InstructionV::Cmd(p)),
        spec_parse_line(kw_workdir() + p) == Some(InstructionV::Workdir(p)),
        spec_parse_line(kw_entrypoint() + p) == Some(InstructionV::EntryPoint(p)),
{
    let sf = kw_from() + p;
    lemma_clean_line_trims_to_itself(sf);
    assert(sf.subrange(0, 5) =~= kw_from());
    assert(sf.subrange(5, sf.len() as int) =~= p);

    let sr = kw_run() + p;
    lemma_clean_line_trims_to_itself(sr);
    lemma_not_prefix_at(sr, kw_from(), 0);
    assert(sr.subrange(0, 4) =~= kw_run());
    assert(sr.subrange(4, sr.len() as int) =~= p);

    let sc = kw_cmd() + p;
    lemma_clean_line_trims_to_itself(sc);
    lemma_not_prefix_at(sc, kw_from(), 0);
    lemma_not_prefix_at(sc, kw_run(), 0);
    lemma_not_prefix_at(sc, kw_copy(), 1);
    assert(sc.subrange(0, 4) =~= kw_cmd());
    assert(sc.subrange(4, sc.len() as int) =~= p);

    let sw = kw_workdir() + p;
    lemma_clean_line_trims_to_itself(sw);
    lemma_not_prefix_at(sw, kw_from(), 0);
    lemma_not_prefix_at(sw, kw_run(), 0);
    lemma_not_prefix_at(sw, kw_copy(), 0);
    lemma_not_prefix_at(sw, kw_cmd(), 0);
    assert(sw.subrange(0, 8) =~= kw_workdir());
    assert(sw.subrange(8, sw.len() as int) =~= p);

    let se = kw_entrypoint() + p;
    lemma_clean_line_trims_to_itself(se);
    lemma_not_prefix_at(se, kw_from(), 0);
    lemma_not_prefix_at(se, kw_run(), 0);
    lemma_not_prefix_at(se, kw_copy(), 0);
    lemma_not_prefix_at(se, kw_cmd(), 0);
    lemma_not_prefix_at(se, kw_workdir(), 0);
    lemma_not_prefix_at(se, kw_expose(), 1);
    lemma_not_prefix_at(se, kw_env(), 2);
    assert(se.subrange(0, 11) =~= kw_entrypoint());
    assert(se.subrange(11, se.len() as int) =~= p);
}

proof fn lemma_tok_end_value(s: Seq<char>, i: int, j: int)
    requires
        0 <= i <= j <= s.len(),
        forall|k: int| i <= k < j ==> !is_space(s[k]),
        j == s.len() || is_space(s[j]),
    ensures
        tok_end(s, i) == j,
    decreases j - i,
{
    if i < j {
        lemma_tok_end_value(s, i + 1, j);
    }
}

proof fn lemma_split_two_tokens(payload: Seq<char>, src: Seq<char>, dest: Seq<char>)
    requires
        payload == src + seq![' '] + dest,
        src.len() > 0,
        dest.len() > 0,
        forall|i: int| 0 <= i < src.len() ==> !is_space(src[i]),
        forall|i: int| 0 <= i < dest.len() ==> !is_space(dest[i]),
    ensures
        spec_split_ws(payload) == seq![src, dest],
{
    let sl = src.len() as int;
    let n = payload.len() as int;
    assert(payload[sl] == ' ');
    assert(forall|k: int| 0 <= k < sl ==> payload[k] == src[k] && !is_space(payload[k]));
    assert(forall|k: int| sl + 1 <= k < n ==> payload[k] == dest[k - sl - 1] && !is_space(
        payload[k],
    ));
    lemma_tok_end_value(payload, 0, sl);
    assert(spec_split_ws_from(payload, 0) == seq![payload.subrange(0, sl)] + spec_split_ws_from(
        payload,
        sl,
    ));
    assert(payload.subrange(0, sl) =~= src);
    assert(spec_split_ws_from(payload, sl) == spec_split_ws_from(payload, sl + 1));
    lemma_tok_end_value(payload, sl + 1, n);
    assert(spec_split_ws_from(payload, sl + 1) == seq![payload.subrange(sl + 1, n)]
        + spec_split_ws_from(payload, n));
    assert(payload.subrange(sl + 1, n) =~= dest);
    assert(spec_split_ws_from(payload, n) =~= Seq::<Seq<char>>::empty());
    assert(seq![src] + (seq![dest] + Seq::<Seq<char>>::empty()) =~= seq![src, dest]);
}

/// `COPY` and `ADD` round-trip: a line `COPY <src> <dest>` (or `ADD`), with
/// nonempty whitespace-free fields, parses to the instruction holding
/// exactly those two fields.
pub proof fn lemma_parse_two_field_round_trip(src: Seq<char>, dest: Seq<char>)
    requires
        src.len() > 0,
        dest.len() > 0,
        forall|i: int| 0 <= i < src.len() ==> !is_space(src[i]),
        forall|i: int| 0 <= i < dest.len() ==> !is_space(dest[i]),
    ensures
        spec_parse_line(kw_copy() + src + seq![' '] + dest) == Some(
            InstructionV::Copy { src, dest },
        ),
        spec_parse_line(kw_add() + src + seq![' '] + dest) == Some(InstructionV::Add { src, dest }),
{
    let payload = src + seq![' '] + dest;
    lemma_split_two_tokens(payload, src, dest);

    let sc = kw_copy() + src + seq![' '] + dest;
    assert(sc =~= kw_copy() + payload);
    lemma_clean_line_trims_to_itself(sc);
    lemma_not_prefix_at(sc, kw_from(), 0);
    lemma_not_prefix_at(sc, kw_run(), 0);
    assert(sc.subrange(0, 5) =~= kw_copy());
    assert(sc.subrange(5, sc.len() as int) =~= payload);

    let sa = kw_add() + src + seq![' '] + dest;
    assert(sa =~= kw_add() + payload);
    lemma_clean_line_trims_to_itself(sa);
    lemma_not_prefix_at(sa, kw_from(), 0);
    lemma_not_prefix_at(sa, kw_run(), 0);
    lemma_not_prefix_at(sa, kw_copy(), 0);
    lemma_not_prefix_at(sa, kw_cmd(), 0);
    lemma_not_prefix_at(sa, kw_workdir(), 0);
    lemma_not_prefix_at(sa, kw_expose(), 0);
    lemma_not_prefix_at(sa, kw_env(), 0);
    lemma_not_prefix_at(sa, kw_entrypoint(), 0);
    assert(sa.subrange(0, 4) =~= kw_add());
    assert(sa.subrange(4, sa.len() as int) =~= payload);
}

/// A `COPY` or `ADD` line with a single field, where two are required,
/// parses to nothing.
pub proof fn lemma_parse_two_field_missing(src: Seq<char>)
    requires
        src.len() > 0,
        forall|i: int| 0 <= i < src.len() ==> !is_space(src[i]),
    ensures
        spec_parse_line(kw_copy() + src) is None,
        spec_parse_line(kw_add() + src) is None,
{
    lemma_tok_end_value(src, 0, src.len() as int);
    assert(spec_split_ws_from(src, 0) == seq![src.subrange(0, src.len() as int)]
        + spec_split_ws_from(src, src.len() as int));
    assert(src.subrange(0, src.len() as int) =~= src);
    assert(spec_split_ws_from(src, src.len() as int) =~= Seq::<Seq<char>>::empty());
    assert(spec_split_ws(src).len() == 1);

    let sc = kw_copy() + src;
    lemma_clean_line_trims_to_itself(sc);
    lemma_not_prefix_at(sc, kw_from(), 0);
    lemma_not_prefix_at(sc, kw_run(), 0);
    assert(sc.subrange(0, 5) =~= kw_copy());
    assert(sc.subrange(5, sc.len() as int) =~= src);

    let sa = kw_add() + src;
    lemma_clean_line_trims_to_itself(sa);
    lemma_not_prefix_at(sa, kw_from(), 0);
    lemma_not_prefix_at(sa, kw_run(), 0);
    lemma_not_prefix_at(sa, kw_copy(), 0);
    lemma_not_prefix_at(sa, kw_cmd(), 0);
    lemma_not_prefix_at(sa, kw_workdir(), 0);
    lemma_not_prefix_at(sa, kw_expose(), 0);
    lemma_not_prefix_at(sa, kw_env(), 0);
    lemma_not_prefix_at(sa, kw_entrypoint(), 0);
    assert(sa.subrange(0, 4) =~= kw_add());
    assert(sa.subrange(4, sa.len() as int) =~= src);
}

/// An `ENV` line without a `=` in its payload parses to nothing.
pub proof fn lemma_parse_env_missing_equals(p: Seq<char>)
    requires
        p.len() > 0,
        !is_space(p[0]),
        !is_space(p[p.len() - 1]),
        forall|i: int| 0 <= i < p.len() ==> p[i] != '=',
    ensures
        spec_parse_line(kw_env() + p) is None,
{
    let s = kw_env() + p;
    lemma_clean_line_trims_to_itself(s);
    lemma_not_prefix_at(s, kw_from(), 0);
    lemma_not_prefix_at(s, kw_run(), 0);
    lemma_not_prefix_at(s, kw_copy(), 0);
    lemma_not_prefix_at(s, kw_cmd(), 0);
    lemma_not_prefix_at(s, kw_workdir(), 0);
    lemma_not_prefix_at(s, kw_expose(), 1);
    assert(s.subrange(0, 4) =~= kw_env());
    assert(s.subrange(4, s.len() as int) =~= p);
    lemma_index_of_props(p, '=', 0);
    let k = spec_index_of(p, '=', 0);
    if k < p.len() {
        assert(p[k] == '=');
    }
}

/// `EXPOSE` round-trips: a line `EXPOSE <digits>`, with a digit string whose
/// value fits a port, parses to `Expose` of exactly that value.
pub proof fn lemma_parse_expose_round_trip(d: Seq<char>)
    requires
        d.len() > 0,
        all_digits(d),
        digits_val(d) <= 65535,
    ensures
        spec_parse_line(kw_expose() + d) == Some(InstructionV::Expose(digits_val(d) as u16)),
{
    assert(forall|i: int| 0 <= i < d.len() ==> !is_space(d[i]) && d[i] != '+');
    let s = kw_expose() + d;
    lemma_clean_line_trims_to_itself(s);
    lemma_not_prefix_at(s, kw_from(), 0);
    lemma_not_prefix_at(s, kw_run(), 0);
    lemma_not_prefix_at(s, kw_copy(), 0);
    lemma_not_prefix_at(s, kw_cmd(), 0);
    lemma_not_prefix_at(s, kw_workdir(), 0);
    assert(s.subrange(0, 7) =~= kw_expose());
    assert(s.subrange(7, s.len() as int) =~= d);
    assert(sign_stripped(d) == d);
    lemma_digits_val_nonneg(d);
}

/// `ENV` round-trips: a line `ENV <key>=<value>`, with a `=`-free,
/// self-trimmed key and a self-trimmed value, parses to `Env` holding
/// exactly that key and value.
pub proof fn lemma_parse_env_round_trip(key: Seq<char>, value: Seq<char>)
    requires
        key == spec_trim(key),
        value == spec_trim(value),
        forall|i: int| 0 <= i < key.len() ==> key[i] != '=',
    ensures
        spec_parse_line(kw_env() + key + seq!['='] + value) == Some(
            InstructionV::Env { key, value },
        ),
{
    let payload = key + seq!['='] + value;
    let s = kw_env() + key + seq!['='] + value;
    assert(s =~= kw_env() + payload);
    if value.len() > 0 {
        lemma_trimmed_ends_clean(value);
        assert(s[s.len() - 1] == value[value.len() - 1]);
    } else {
        assert(s[s.len() - 1] == '=');
    }
    lemma_clean_line_trims_to_itself(s);
    lemma_not_prefix_at(s, kw_from(), 0);
    lemma_not_prefix_at(s, kw_run(), 0);
    lemma_not_prefix_at(s, kw_copy(), 0);
    lemma_not_prefix_at(s, kw_cmd(), 0);
    lemma_not_prefix_at(s, kw_workdir(), 0);
    lemma_not_prefix_at(s, kw_expose(), 1);
    assert(s.subrange(0, 4) =~= kw_env());
    assert(s.subrange(4, s.len() as int) =~= payload);
    let kl = key.len() as int;
    let n = payload.len() as int;
    assert(payload[kl] == '=');
    assert(forall|k: int| 0 <= k < kl ==> payload[k] == key[k] && payload[k] != '=');
    lemma_index_of_value(payload, '=', 0, kl);
    assert(payload.subrange(0, kl) =~= key);
    assert(payload.subrange(kl + 1, n) =~= value);
}

} // verus!
