//! Parser for the kernel `mtdparts=` syntax used by U-Boot / Linux MTD.
//!
//! Format (single device; multi-device strings separated by `;` are
//! intentionally not supported here):
//!
//!     mtdparts=<mtd-id>:<part>[,<part>]*
//!     part = <size>[@<offset>](<name>)[<ro-flag>][<lk-flag>]
//!
//! `<size>` and `<offset>` accept k/K (1024), m/M (1024²), g/G (1024³),
//! or no suffix (raw bytes). `<size>` may be `-` meaning "rest of the
//! device". When `@<offset>` is omitted the partition starts where the
//! previous one ended (or at 0 for the first).
//!
//! This is the standard kernel format documented in `cmdlinepart.c`.

use crate::text::{
    all_white, chars_of, find_char, first_index, is_digit, is_white_space, lemma_first_index_is,
    lemma_trimmed, lower, parse_unsigned, pieces, same_text, split, starts_with, trim, trimmed,
    trimmed_end, trimmed_start, unsigned_value,
};
use vstd::prelude::*;

verus! {

/// One partition of the device.
#[derive(Debug, Clone)]
pub struct Partition {
    pub name: String,
    /// Offset in bytes from the start of the flash device.
    pub offset: u64,
    /// Size in bytes, or `None` for the trailing `-` (rest of device).
    pub size: Option<u64>,
}

/// What a [`Partition`] holds.
pub struct PartitionView {
    pub name: Seq<char>,
    pub offset: u64,
    pub size: Option<u64>,
}

impl View for Partition {
    type V = PartitionView;

    open spec fn view(&self) -> PartitionView {
        PartitionView { name: self.name@, offset: self.offset, size: self.size }
    }
}

/// Why a partition list is refused. `T` is the type of the pieces of text it quotes.
#[derive(Debug)]
pub enum MtdError<T> {
    MissingColon,
    EmptySpec,
    MissingOpen { spec: T },
    MissingClose { spec: T },
    Malformed { spec: T },
    EmptySize,
    UnknownSuffix { suffix: char, size: T },
    InvalidNumber { digits: T },
    SizeOverflow { size: T },
    OffsetOverflow { name: T },
}

impl View for MtdError<String> {
    type V = MtdError<Seq<char>>;

    open spec fn view(&self) -> MtdError<Seq<char>> {
        match self {
            MtdError::MissingColon => MtdError::MissingColon,
            MtdError::EmptySpec => MtdError::EmptySpec,
            MtdError::MissingOpen { spec } => MtdError::MissingOpen { spec: spec@ },
            MtdError::MissingClose { spec } => MtdError::MissingClose { spec: spec@ },
            MtdError::Malformed { spec } => MtdError::Malformed { spec: spec@ },
            MtdError::EmptySize => MtdError::EmptySize,
            MtdError::UnknownSuffix { suffix, size } => MtdError::UnknownSuffix {
                suffix: *suffix,
                size: size@,
            },
            MtdError::InvalidNumber { digits } => MtdError::InvalidNumber { digits: digits@ },
            MtdError::SizeOverflow { size } => MtdError::SizeOverflow { size: size@ },
            MtdError::OffsetOverflow { name } => MtdError::OffsetOverflow { name: name@ },
        }
    }
}

/// The text of an error.
pub open spec fn message_of(e: MtdError<Seq<char>>) -> Seq<char> {
    match e {
        MtdError::MissingColon => "mtdparts: missing ':' separating <mtd-id> from partitions"@,
        MtdError::EmptySpec => "mtdparts: empty partition spec"@,
        MtdError::MissingOpen { spec } => "mtdparts: missing '(' in '"@ + spec + "'"@,
        MtdError::MissingClose { spec } => "mtdparts: missing ')' in '"@ + spec + "'"@,
        MtdError::Malformed { spec } => "mtdparts: malformed '"@ + spec + "'"@,
        MtdError::EmptySize => "mtdparts: empty size"@,
        MtdError::UnknownSuffix { suffix, size } => "mtdparts: unknown size suffix '"@.push(suffix)
            + "' in '"@ + size + "'"@,
        MtdError::InvalidNumber { digits } => "mtdparts: invalid number '"@ + digits + "'"@,
        MtdError::SizeOverflow { size } => "mtdparts: size overflow in '"@ + size + "'"@,
        MtdError::OffsetOverflow { name } => "mtdparts: offset overflow at '"@ + name + "'"@,
    }
}

/// `lead`, the quoted text and a closing quote.
fn quote(lead: &str, quoted: &str) -> (r: String)
    ensures
        r@ == lead@ + quoted@ + "'"@,
{
    let mut r: String = lead.to_owned();
    r.append(quoted);
    r.append("'");
    r
}

impl MtdError<String> {
    /// The text of this error.
    pub fn message(&self) -> (r: String)
        ensures
            r@ == message_of(self@),
    {
        match self {
            MtdError::MissingColon =>
                "mtdparts: missing ':' separating <mtd-id> from partitions".to_owned(),
            MtdError::EmptySpec => "mtdparts: empty partition spec".to_owned(),
            MtdError::MissingOpen { spec } => quote("mtdparts: missing '(' in '", spec),
            MtdError::MissingClose { spec } => quote("mtdparts: missing ')' in '", spec),
            MtdError::Malformed { spec } => quote("mtdparts: malformed '", spec),
            MtdError::EmptySize => "mtdparts: empty size".to_owned(),
            MtdError::UnknownSuffix { suffix, size } => {
                let mut lead: String = "mtdparts: unknown size suffix '".to_owned();
                lead.push(*suffix);
                lead.append("' in '");
                quote(&lead, size)
            },
            MtdError::InvalidNumber { digits } => quote("mtdparts: invalid number '", digits),
            MtdError::SizeOverflow { size } => quote("mtdparts: size overflow in '", size),
            MtdError::OffsetOverflow { name } => quote("mtdparts: offset overflow at '", name),
        }
    }
}

/// What a size suffix multiplies by.
pub open spec fn multiplier(suffix: char) -> Option<nat> {
    if lower(suffix) == 'k' {
        Some(1024)
    } else if lower(suffix) == 'm' {
        Some(0x10_0000)
    } else if lower(suffix) == 'g' {
        Some(0x4000_0000)
    } else {
        None
    }
}

/// The number that `digits` writes, times `mult`; `size` is what an overflow quotes.
pub open spec fn scaled(digits: Seq<char>, mult: nat, size: Seq<char>) -> Result<
    u64,
    MtdError<Seq<char>>,
> {
    match unsigned_value(digits, u64::MAX as nat) {
        None => Err(MtdError::InvalidNumber { digits }),
        Some(n) => if n * mult <= u64::MAX {
            Ok((n * mult) as u64)
        } else {
            Err(MtdError::SizeOverflow { size })
        },
    }
}

/// The bytes that a size or an offset stands for.
pub open spec fn size_of(text: Seq<char>) -> Result<u64, MtdError<Seq<char>>> {
    let s = trimmed(text);
    if s.len() == 0 {
        Err(MtdError::EmptySize)
    } else if is_digit(s.last()) {
        scaled(s, 1, s)
    } else {
        match multiplier(s.last()) {
            None => Err(MtdError::UnknownSuffix { suffix: s.last(), size: s }),
            Some(mult) => scaled(s.drop_last(), mult, s),
        }
    }
}

/// The size in front of the `(`: none for `-`.
pub open spec fn declared_size(text: Seq<char>) -> Result<Option<u64>, MtdError<Seq<char>>> {
    if text == "-"@ {
        Ok(None)
    } else {
        match size_of(text) {
            Ok(n) => Ok(Some(n)),
            Err(e) => Err(e),
        }
    }
}

/// The partition made of its parts, and where one without an offset would follow.
pub open spec fn placed(name: Seq<char>, offset: u64, size: Option<u64>, next: u64) -> Result<
    (PartitionView, u64),
    MtdError<Seq<char>>,
> {
    let partition = PartitionView { name, offset, size };
    match size {
        None => Ok((partition, next)),
        Some(n) => if offset + n <= u64::MAX {
            Ok((partition, (offset + n) as u64))
        } else {
            Err(MtdError::OffsetOverflow { name })
        },
    }
}

/// The partition that one piece of the list declares, when one without an offset starts at
/// `next`, together with the offset for the one after it.
pub open spec fn declared(piece: Seq<char>, next: u64) -> Result<
    (PartitionView, u64),
    MtdError<Seq<char>>,
> {
    let spec = trimmed(piece);
    if spec.len() == 0 {
        Err(MtdError::EmptySpec)
    } else {
        match first_index(spec, '(') {
            None => Err(MtdError::MissingOpen { spec }),
            Some(open) => match first_index(spec, ')') {
                None => Err(MtdError::MissingClose { spec }),
                Some(close) => if open >= close {
                    Err(MtdError::Malformed { spec })
                } else {
                    let head = spec.take(open);
                    let name = spec.subrange(open + 1, close);
                    match first_index(head, '@') {
                        None => match declared_size(head) {
                            Err(e) => Err(e),
                            Ok(size) => placed(name, next, size, next),
                        },
                        Some(at) => match declared_size(head.take(at)) {
                            Err(e) => Err(e),
                            Ok(size) => match size_of(head.skip(at + 1)) {
                                Err(e) => Err(e),
                                Ok(offset) => placed(name, offset, size, next),
                            },
                        },
                    }
                },
            },
        }
    }
}

/// The partitions that the pieces declare one after the other, or the first error.
pub open spec fn declared_all(list: Seq<Seq<char>>, next: u64) -> Result<
    Seq<PartitionView>,
    MtdError<Seq<char>>,
>
    decreases list.len(),
{
    if list.len() == 0 {
        Ok(Seq::empty())
    } else {
        match declared(list[0], next) {
            Err(e) => Err(e),
            Ok((partition, after)) => match declared_all(list.skip(1), after) {
                Err(e) => Err(e),
                Ok(rest) => Ok(seq![partition] + rest),
            },
        }
    }
}

/// The text behind the optional `mtdparts=`.
pub open spec fn without_key(s: Seq<char>) -> Seq<char> {
    if starts_with(s, "mtdparts="@) {
        s.skip("mtdparts="@.len() as int)
    } else {
        s
    }
}

/// What a `mtdparts` string declares.
pub open spec fn parsed(s: Seq<char>) -> Result<Seq<PartitionView>, MtdError<Seq<char>>> {
    let body = without_key(trimmed(s));
    match first_index(body, ':') {
        None => Err(MtdError::MissingColon),
        Some(colon) => declared_all(pieces(body.skip(colon + 1), ','), 0),
    }
}

/// What each partition of a list holds.
pub open spec fn views(list: Seq<Partition>) -> Seq<PartitionView> {
    list.map_values(|p: Partition| p@)
}

/// Parse a size or an offset, in bytes.
pub fn parse_size(text: &str) -> (r: Result<u64, MtdError<String>>)
    ensures
        match r {
            Ok(n) => size_of(text@) == Ok::<u64, MtdError<Seq<char>>>(n),
            Err(e) => size_of(text@) == Err::<u64, MtdError<Seq<char>>>(e@),
        },
{
    let s: &str = trim(text);
    let n: usize = s.unicode_len();
    if n == 0 {
        return Err(MtdError::EmptySize);
    }
    let last: char = s.get_char(n - 1);
    let mut digits: &str = s;
    let mut mult: u64 = 1;
    if !('0' <= last && last <= '9') {
        mult = match last {
            'k' | 'K' => 1024,
            'm' | 'M' => 0x10_0000,
            'g' | 'G' => 0x4000_0000,
            _ => {
                return Err(MtdError::UnknownSuffix { suffix: last, size: s.to_owned() });
            },
        };
        digits = s.substring_char(0, n - 1);
        assert(digits@ =~= s@.drop_last());
    }
    match parse_unsigned(digits, u64::MAX) {
        None => Err(MtdError::InvalidNumber { digits: digits.to_owned() }),
        Some(n) => match n.checked_mul(mult) {
            Some(bytes) => Ok(bytes),
            None => Err(MtdError::SizeOverflow { size: s.to_owned() }),
        },
    }
}

/// Parse one piece of the list.
fn parse_spec(piece: &str, next: u64) -> (r: Result<(Partition, u64), MtdError<String>>)
    ensures
        match r {
            Ok((p, after)) => declared(piece@, next) == Ok::<
                (PartitionView, u64),
                MtdError<Seq<char>>,
            >((p@, after)),
            Err(e) => declared(piece@, next) == Err::<(PartitionView, u64), MtdError<Seq<char>>>(
                e@,
            ),
        },
{
    let spec: &str = trim(piece);
    let chars: Vec<char> = chars_of(spec);
    if chars.len() == 0 {
        return Err(MtdError::EmptySpec);
    }
    let open: usize = match find_char(&chars, '(') {
        None => {
            return Err(MtdError::MissingOpen { spec: spec.to_owned() });
        },
        Some(i) => i,
    };
    let close: usize = match find_char(&chars, ')') {
        None => {
            return Err(MtdError::MissingClose { spec: spec.to_owned() });
        },
        Some(i) => i,
    };
    if open >= close {
        return Err(MtdError::Malformed { spec: spec.to_owned() });
    }
    let head: &str = spec.substring_char(0, open);
    assert(head@ =~= spec@.take(open as int));
    let name: String = spec.substring_char(open + 1, close).to_owned();
    let head_chars: Vec<char> = chars_of(head);
    let at: Option<usize> = find_char(&head_chars, '@');
    let size_text: &str = match at {
        None => head,
        Some(i) => head.substring_char(0, i),
    };
    proof {
        if let Some(i) = at {
            assert(size_text@ =~= head@.take(i as int));
        }
    }
    let size: Option<u64> = if same_text(size_text, "-") {
        None
    } else {
        match parse_size(size_text) {
            Ok(n) => Some(n),
            Err(e) => {
                return Err(e);
            },
        }
    };
    let offset: u64 = match at {
        None => next,
        Some(i) => {
            let text: &str = head.substring_char(i + 1, open);
            assert(text@ =~= head@.skip(i + 1));
            match parse_size(text) {
                Ok(n) => n,
                Err(e) => {
                    return Err(e);
                },
            }
        },
    };
    let mut after: u64 = next;
    if let Some(n) = size {
        after = match offset.checked_add(n) {
            Some(end) => end,
            None => {
                return Err(MtdError::OffsetOverflow { name });
            },
        };
    }
    Ok((Partition { name, offset, size }, after))
}

/// Parse a single-device `mtdparts=...` string and return its partitions
/// in declaration order, with offsets resolved.
pub fn parse(s: &str) -> (r: Result<Vec<Partition>, MtdError<String>>)
    ensures
        match r {
            Ok(list) => parsed(s@) == Ok::<Seq<PartitionView>, MtdError<Seq<char>>>(views(list@))
                && list@.len() > 0,
            Err(e) => parsed(s@) == Err::<Seq<PartitionView>, MtdError<Seq<char>>>(e@),
        },
{
    let trimmed_text: &str = trim(s);
    let body: &str = strip_key(trimmed_text);
    let chars: Vec<char> = chars_of(body);
    let colon: usize = match find_char(&chars, ':') {
        None => {
            return Err(MtdError::MissingColon);
        },
        Some(i) => i,
    };
    let rest: &str = body.substring_char(colon + 1, chars.len());
    assert(rest@ =~= body@.skip(colon + 1));
    let list: Vec<&str> = split(rest, ',');
    let ghost all = pieces(rest@, ',');
    let mut out: Vec<Partition> = Vec::new();
    let mut next: u64 = 0;
    let mut i: usize = 0;
    assert(all.skip(0) =~= all);
    assert(views(out@) =~= Seq::empty());
    while i < list.len()
        invariant
            i <= list.len() == all.len(),
            out@.len() == i,
            all == pieces(rest@, ','),
            forall|k: int| 0 <= k < list@.len() ==> (#[trigger] list@[k])@ == all[k],
            match declared_all(all.skip(i as int), next) {
                Ok(tail) => declared_all(all, 0) == Ok::<Seq<PartitionView>, MtdError<Seq<char>>>(
                    views(out@) + tail,
                ),
                Err(e) => declared_all(all, 0) == Err::<Seq<PartitionView>, MtdError<Seq<char>>>(e),
            },
            parsed(s@) == declared_all(all, 0),
        decreases list.len() - i,
    {
        assert(all.skip(i as int)[0] == list@[i as int]@);
        assert(all.skip(i as int).skip(1) =~= all.skip(i + 1));
        match parse_spec(list[i], next) {
            Err(e) => {
                return Err(e);
            },
            Ok((partition, after)) => {
                let ghost before = views(out@);
                let ghost view = partition@;
                out.push(partition);
                proof {
                    assert(views(out@) =~= before.push(view));
                    match declared_all(all.skip(i + 1), after) {
                        Ok(tail) => {
                            assert(before + (seq![view] + tail) =~= before.push(view) + tail);
                        },
                        Err(_) => {},
                    }
                }
                next = after;
            },
        }
        i = i + 1;
    }
    assert(views(out@) + Seq::<PartitionView>::empty() =~= views(out@));
    Ok(out)
}

/// The text behind the optional `mtdparts=`.
fn strip_key(s: &str) -> (r: &str)
    ensures
        r@ == without_key(s@),
{
    let n: usize = s.unicode_len();
    let key: usize = "mtdparts=".unicode_len();
    if key <= n {
        let front: &str = s.substring_char(0, key);
        assert(front@ =~= s@.take(key as int));
        if same_text(front, "mtdparts=") {
            let rest: &str = s.substring_char(key, n);
            assert(rest@ =~= s@.skip(key as int));
            return rest;
        }
    }
    s
}

/// Where a partition without an offset starts behind the given ones: at the end of the last
/// that has a size, at `next` if there is none.
pub open spec fn end_of(parts: Seq<PartitionView>, next: u64) -> int
    decreases parts.len(),
{
    if parts.len() == 0 {
        next as int
    } else {
        match parts.last().size {
            Some(n) => parts.last().offset + n,
            None => end_of(parts.drop_last(), next),
        }
    }
}

/// Whether a piece of the list gives an offset.
pub open spec fn has_offset(piece: Seq<char>) -> bool {
    match first_index(trimmed(piece), '(') {
        Some(open) => first_index(trimmed(piece).take(open), '@') is Some,
        None => false,
    }
}

proof fn lemma_end_of(p: PartitionView, rest: Seq<PartitionView>, next: u64)
    requires
        p.size matches Some(n) ==> p.offset + n <= u64::MAX,
    ensures
        end_of(seq![p] + rest, next) == end_of(
            rest,
            match p.size {
                Some(n) => (p.offset + n) as u64,
                None => next,
            },
        ),
    decreases rest.len(),
{
    let all = seq![p] + rest;
    if rest.len() == 0 {
        assert(all.drop_last() =~= Seq::<PartitionView>::empty());
        assert(all.last() == p);
        assert(end_of(Seq::<PartitionView>::empty(), next) == next);
    } else {
        assert(all.last() == rest.last());
        assert(all.drop_last() =~= seq![p] + rest.drop_last());
        lemma_end_of(p, rest.drop_last(), next);
    }
}

/// Every piece declares one partition, in order. Without an offset it starts where the one
/// before it ended, or at `next` for the first.
pub proof fn law_partitions_follow_each_other(list: Seq<Seq<char>>, next: u64, i: int)
    requires
        declared_all(list, next) is Ok,
        0 <= i < list.len(),
    ensures
        declared_all(list, next)->Ok_0.len() == list.len(),
        !has_offset(list[i]) ==> declared_all(list, next)->Ok_0[i].offset == end_of(
            declared_all(list, next)->Ok_0.take(i),
            next,
        ),
    decreases list.len(),
{
    let parts = declared_all(list, next)->Ok_0;
    let (p, after) = declared(list[0], next)->Ok_0;
    let rest = declared_all(list.skip(1), after)->Ok_0;
    assert(parts =~= seq![p] + rest);
    if list.len() > 1 {
        law_partitions_follow_each_other(list.skip(1), after, if i > 0 {
            i - 1
        } else {
            0
        });
    } else {
        assert(list.skip(1).len() == 0);
    }
    if i > 0 {
        assert(parts[i] == rest[i - 1]);
        assert(parts.take(i) =~= seq![p] + rest.take(i - 1));
        lemma_end_of(p, rest.take(i - 1), next);
        assert(list.skip(1)[i - 1] == list[i]);
    } else {
        assert(parts.take(0) =~= Seq::<PartitionView>::empty());
    }
}

/// A list that is accepted declares at least one partition.
pub proof fn law_some_partition(s: Seq<char>)
    requires
        parsed(s) is Ok,
    ensures
        parsed(s)->Ok_0.len() > 0,
{
    let body = without_key(trimmed(s));
    let list = pieces(body.skip(first_index(body, ':')->Some_0 + 1), ',');
    law_partitions_follow_each_other(list, 0, 0);
}

/// White space is trimmed off on either side of a colon alone.
proof fn lemma_trimmed_at_colon(before: Seq<char>, behind: Seq<char>)
    ensures
        trimmed(before + seq![':'] + behind) == trimmed_start(before) + seq![':'] + trimmed_end(
            behind,
        ),
    decreases before.len() + behind.len(),
{
    let text = before + seq![':'] + behind;
    if before.len() > 0 && is_white_space(before[0]) {
        assert(text.skip(1) =~= before.skip(1) + seq![':'] + behind);
        lemma_trimmed_at_colon(before.skip(1), behind);
    } else if behind.len() > 0 && is_white_space(behind.last()) {
        assert(text[0] == (if before.len() > 0 {
            before[0]
        } else {
            ':'
        }));
        let rest = before + seq![':'] + behind.drop_last();
        assert(text.drop_last() =~= rest);
        assert(rest[0] == text[0]);
        lemma_trimmed_at_colon(before, behind.drop_last());
    } else {
        assert(text[0] == (if before.len() > 0 {
            before[0]
        } else {
            ':'
        }));
        assert(text.last() == (if behind.len() > 0 {
            behind.last()
        } else {
            ':'
        }));
        lemma_trimmed(text);
    }
}

/// White space behind a text is trimmed off with that at its end.
proof fn lemma_trimmed_end_join(s: Seq<char>, tail: Seq<char>)
    requires
        all_white(tail),
    ensures
        trimmed_end(s + tail) == trimmed_end(s),
    decreases tail.len(),
{
    if tail.len() == 0 {
        assert(s + tail =~= s);
    } else {
        let rest = tail.drop_last();
        assert(is_white_space(tail[tail.len() - 1]));
        assert forall|i: int| 0 <= i < rest.len() implies is_white_space(#[trigger] rest[i]) by {
            assert(rest[i] == tail[i]);
        }
        assert((s + tail).drop_last() =~= s + rest);
        lemma_trimmed_end_join(s, rest);
    }
}

/// Trimming leaves no character that was not there.
proof fn lemma_trimmed_start_lacks(s: Seq<char>, c: char)
    requires
        !s.contains(c),
    ensures
        !trimmed_start(s).contains(c),
    decreases s.len(),
{
    if s.len() > 0 && is_white_space(s[0]) {
        let rest = s.skip(1);
        assert forall|i: int| 0 <= i < rest.len() implies rest[i] != c by {
            assert(rest[i] == s[i + 1]);
            assert(s.contains(s[i + 1]));
        }
        lemma_trimmed_start_lacks(rest, c);
    }
}

/// Only the list behind the first colon counts: neither the name of the device, nor
/// `mtdparts=` in front of it, nor white space around the text makes a difference.
pub proof fn law_only_the_list_counts(
    lead: Seq<char>,
    key: bool,
    id: Seq<char>,
    list: Seq<char>,
    tail: Seq<char>,
)
    requires
        all_white(lead),
        all_white(tail),
        !id.contains(':'),
    ensures
        parsed(
            lead + (if key {
                "mtdparts="@
            } else {
                Seq::empty()
            }) + id + seq![':'] + list + tail,
        ) == declared_all(pieces(trimmed_end(list), ','), 0),
{
    reveal_strlit("mtdparts=");
    let prefix = "mtdparts="@;
    let front = if key {
        prefix
    } else {
        Seq::empty()
    };
    let text = lead + front + id + seq![':'] + list + tail;
    let before = lead + front + id;
    assert forall|i: int| 0 <= i < before.len() implies before[i] != ':' by {
        if i < lead.len() {
            assert(is_white_space(lead[i]));
        } else if i >= lead.len() + front.len() {
            assert(id.contains(id[i - lead.len() - front.len()]));
        }
    }
    assert(text =~= before + seq![':'] + (list + tail));
    lemma_trimmed_at_colon(before, list + tail);
    lemma_trimmed_end_join(list, tail);
    lemma_trimmed_start_lacks(before, ':');
    let kept = trimmed_start(before);
    let rest = trimmed_end(list);
    let s = kept + seq![':'] + rest;
    assert(trimmed(text) == s);
    let name = if starts_with(s, prefix) {
        if kept.len() < prefix.len() {
            assert(s.take(prefix.len() as int)[kept.len() as int] == ':');
            assert(prefix[kept.len() as int] != ':');
        }
        kept.skip(prefix.len() as int)
    } else {
        kept
    };
    let body = name + seq![':'] + rest;
    assert(without_key(s) =~= body);
    let colon = name.len() as int;
    assert forall|j: int| 0 <= j < colon implies #[trigger] body[j] != ':' by {
        assert(kept.contains(kept[j + kept.len() - name.len()]));
    }
    lemma_first_index_is(body, ':', colon);
    assert(body.skip(colon + 1) =~= rest);
}

} // verus!
