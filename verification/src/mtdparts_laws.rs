//! What a `mtdparts` text declares, piece by piece.

use crate::flash_laws::lemma_all_white_is_trimmed;
use crate::mtdparts::{
    declared, declared_all, message_of, parsed, size_of, views, without_key, MtdError, Partition,
    PartitionView,
};
use crate::text::{
    all_white, decimal, first_index, is_digit, is_white_space, law_decimal_reads_back,
    lemma_first_index, lemma_first_index_is, lemma_first_index_none, lemma_trimmed_around, trimmed,
    trimmed_start, unsigned_value,
};
use crate::text_laws::{law_trimmed_end, law_trimmed_start};
use vstd::prelude::*;

verus! {

/// What a number with the given suffix, or with none, is multiplied by.
pub open spec fn suffix_factor(suffix: Option<char>) -> Option<int> {
    match suffix {
        None => Some(1),
        Some(c) => if c == 'k' || c == 'K' {
            Some(1024)
        } else if c == 'm' || c == 'M' {
            Some(1_048_576)
        } else if c == 'g' || c == 'G' {
            Some(1_073_741_824)
        } else {
            None
        },
    }
}

/// A suffix as text.
pub open spec fn suffix_text(suffix: Option<char>) -> Seq<char> {
    match suffix {
        None => Seq::empty(),
        Some(c) => seq![c],
    }
}

/// A size is a number and a suffix, with white space around them: k and K stand for 1024 bytes, m
/// and M for 1024 times as much, g and G for 1024 times as much again, no suffix for single bytes.
/// Any other suffix is unknown; what is in front of the suffix must write a number; and the bytes
/// must fit.
pub proof fn law_size_of_any_text(
    lead: Seq<char>,
    number: Seq<char>,
    suffix: Option<char>,
    tail: Seq<char>,
)
    requires
        all_white(lead),
        all_white(tail),
        number.len() > 0 ==> !is_white_space(number[0]),
        suffix is None ==> number.len() > 0 && 48 <= number.last() as int <= 57,
        suffix matches Some(c) ==> !is_white_space(c) && !(48 <= c as int <= 57),
    ensures
        ({
            let body = number + suffix_text(suffix);
            let r = size_of(lead + body + tail);
            match suffix_factor(suffix) {
                None => r == Err::<u64, MtdError<Seq<char>>>(
                    MtdError::UnknownSuffix { suffix: suffix->Some_0, size: body },
                ),
                Some(factor) => match unsigned_value(number, 18_446_744_073_709_551_615) {
                    None => r == Err::<u64, MtdError<Seq<char>>>(
                        MtdError::InvalidNumber { digits: number },
                    ),
                    Some(n) => if n * factor > 18_446_744_073_709_551_615 {
                        r == Err::<u64, MtdError<Seq<char>>>(MtdError::SizeOverflow { size: body })
                    } else {
                        r is Ok && r->Ok_0 == n * factor
                    },
                },
            }
        }),
{
    let body = number + suffix_text(suffix);
    assert(body.len() > 0);
    if number.len() > 0 {
        assert(body[0] == number[0]);
    }
    if suffix is None {
        assert(body =~= number);
        assert(is_digit(body.last()));
        assert(!is_white_space(body.last()));
    } else {
        assert(body.last() == suffix->Some_0);
        assert(body.drop_last() =~= number);
        assert(!is_digit(body.last()));
        let c = suffix->Some_0;
        if 'A' <= c <= 'Z' {
            assert(65 <= c as int <= 90);
            if c != 'K' && c != 'M' && c != 'G' {
                assert((c as nat + 32) as char != 'k');
            }
        }
    }
    lemma_trimmed_around(lead, body, tail);
}

/// A number that is written out with a suffix reads as so many bytes, unless they do not fit.
pub proof fn law_sizes(n: nat, suffix: char)
    ensures
        ({
            let plain = size_of(decimal(n));
            &&& plain matches Ok(bytes) ==> bytes == n
            &&& plain is Ok <==> n <= 18_446_744_073_709_551_615
        }),
        suffix == 'k' || suffix == 'K' ==> {
            let r = size_of(decimal(n) + seq![suffix]);
            &&& r matches Ok(bytes) ==> bytes == n * 1024
            &&& r is Ok <==> n * 1024 <= 18_446_744_073_709_551_615
        },
        suffix == 'm' || suffix == 'M' ==> {
            let r = size_of(decimal(n) + seq![suffix]);
            &&& r matches Ok(bytes) ==> bytes == n * 1_048_576
            &&& r is Ok <==> n * 1_048_576 <= 18_446_744_073_709_551_615
        },
        suffix == 'g' || suffix == 'G' ==> {
            let r = size_of(decimal(n) + seq![suffix]);
            &&& r matches Ok(bytes) ==> bytes == n * 1_073_741_824
            &&& r is Ok <==> n * 1_073_741_824 <= 18_446_744_073_709_551_615
        },
{
    law_decimal_reads_back(n);
    let d = decimal(n);
    let none = Seq::<char>::empty();
    assert(is_digit(d[0]) && is_digit(d[d.len() - 1]));
    assert(unsigned_value(d, 18_446_744_073_709_551_615) == if n <= 18_446_744_073_709_551_615 {
        Some(n)
    } else {
        None
    });
    law_size_of_any_text(none, d, None, none);
    assert(none + (d + suffix_text(None)) + none =~= d);
    if suffix_factor(Some(suffix)) is Some {
        law_size_of_any_text(none, d, Some(suffix), none);
        assert(none + (d + suffix_text(Some(suffix))) + none =~= d + seq![suffix]);
    }
}

/// White space alone is no size.
pub proof fn law_no_size(text: Seq<char>)
    requires
        all_white(text),
    ensures
        size_of(text) == Err::<u64, MtdError<Seq<char>>>(MtdError::EmptySize),
{
    lemma_all_white_is_trimmed(text);
}

/// What stands in front of the name: the size, and the offset behind an `@` if there is one.
pub open spec fn piece_head(size: Seq<char>, offset: Option<Seq<char>>) -> Seq<char> {
    match offset {
        None => size,
        Some(o) => size + seq!['@'] + o,
    }
}

/// A piece `<size>[@<offset>](<name>)<flags>` declares a partition of that name and size. `-` for
/// the size is no size. It lies at its offset, or at `next` if it has none. The piece after it
/// continues at its end, or at `next` if it has no size.
pub proof fn law_piece(
    lead: Seq<char>,
    size: Seq<char>,
    offset: Option<Seq<char>>,
    name: Seq<char>,
    flags: Seq<char>,
    tail: Seq<char>,
    next: u64,
)
    requires
        all_white(lead),
        all_white(tail),
        !size.contains('@'),
        !piece_head(size, offset).contains('('),
        !piece_head(size, offset).contains(')'),
        !name.contains(')'),
        piece_head(size, offset).len() > 0 ==> !is_white_space(piece_head(size, offset)[0]),
        flags.len() > 0 ==> !is_white_space(flags.last()),
    ensures
        ({
            let r = declared(
                lead + (piece_head(size, offset) + seq!['('] + name + seq![')'] + flags) + tail,
                next,
            );
            let at = match offset {
                None => Ok::<u64, MtdError<Seq<char>>>(next),
                Some(o) => size_of(o),
            };
            let rest = size == seq!['-'];
            if !rest && size_of(size) is Err {
                r is Err && r->Err_0 == size_of(size)->Err_0
            } else if at is Err {
                r is Err && r->Err_0 == at->Err_0
            } else if rest {
                &&& r is Ok
                &&& r->Ok_0.0.name == name
                &&& r->Ok_0.0.offset == at->Ok_0
                &&& r->Ok_0.0.size is None
                &&& r->Ok_0.1 == next
            } else if at->Ok_0 + size_of(size)->Ok_0 > 18_446_744_073_709_551_615 {
                r is Err && r->Err_0 == (MtdError::OffsetOverflow { name })
            } else {
                &&& r is Ok
                &&& r->Ok_0.0.name == name
                &&& r->Ok_0.0.offset == at->Ok_0
                &&& r->Ok_0.0.size == Some(size_of(size)->Ok_0)
                &&& r->Ok_0.1 == at->Ok_0 + size_of(size)->Ok_0
            }
        }),
{
    reveal_strlit("-");
    assert("-"@ =~= seq!['-']);
    let head = piece_head(size, offset);
    let spec = head + seq!['('] + name + seq![')'] + flags;
    let open = head.len() as int;
    let close = open + 1 + name.len();
    assert(spec[0] == (if head.len() > 0 {
        head[0]
    } else {
        '('
    }));
    assert(spec.last() == (if flags.len() > 0 {
        flags.last()
    } else {
        ')'
    }));
    lemma_trimmed_around(lead, spec, tail);
    assert(spec[open] == '(');
    assert(spec[close] == ')');
    assert forall|j: int| 0 <= j < open implies #[trigger] spec[j] != '(' by {
        assert(spec[j] == head[j]);
        assert(head.contains(head[j]));
    }
    lemma_first_index_is(spec, '(', open);
    assert forall|j: int| 0 <= j < close implies #[trigger] spec[j] != ')' by {
        if j < open {
            assert(spec[j] == head[j]);
            assert(head.contains(head[j]));
        } else if j > open {
            assert(spec[j] == name[j - open - 1]);
            assert(name.contains(name[j - open - 1]));
        }
    }
    lemma_first_index_is(spec, ')', close);
    assert(spec.take(open) =~= head);
    assert(spec.subrange(open + 1, close) =~= name);
    match offset {
        None => {
            assert forall|j: int| 0 <= j < head.len() implies #[trigger] head[j] != '@' by {
                assert(size.contains(size[j]));
            }
            lemma_first_index_none(head, '@');
        },
        Some(o) => {
            let at = size.len() as int;
            assert forall|j: int| 0 <= j < at implies #[trigger] head[j] != '@' by {
                assert(head[j] == size[j]);
                assert(size.contains(size[j]));
            }
            lemma_first_index_is(head, '@', at);
            assert(head.take(at) =~= size);
            assert(head.skip(at + 1) =~= o);
        },
    }
}

/// A piece without text, without a parenthesis or with the closing one first declares nothing.
pub proof fn law_piece_refused(lead: Seq<char>, spec: Seq<char>, tail: Seq<char>, next: u64)
    requires
        all_white(lead),
        all_white(tail),
        spec.len() > 0 ==> !is_white_space(spec[0]) && !is_white_space(spec.last()),
    ensures
        ({
            let r = declared(lead + spec + tail, next);
            &&& spec.len() == 0 ==> r is Err && r->Err_0 == MtdError::<Seq<char>>::EmptySpec
            &&& spec.len() > 0 && !spec.contains('(') ==> r is Err && r->Err_0
                == (MtdError::MissingOpen { spec })
            &&& spec.contains('(') && !spec.contains(')') ==> r is Err && r->Err_0
                == (MtdError::MissingClose { spec })
            &&& forall|i: int|
                0 <= i < spec.len() && #[trigger] spec[i] == ')' && spec.contains('(')
                    && !spec.take(i).contains('(') ==> r is Err && r->Err_0
                    == (MtdError::Malformed { spec })
        }),
{
    if spec.len() == 0 {
        let all = lead + spec + tail;
        assert forall|i: int| 0 <= i < all.len() implies is_white_space(#[trigger] all[i]) by {
            if i < lead.len() {
                assert(is_white_space(lead[i]));
            } else {
                assert(is_white_space(tail[i - lead.len()]));
            }
        }
        lemma_all_white_is_trimmed(all);
    } else {
        lemma_trimmed_around(lead, spec, tail);
        lemma_first_index(spec, '(');
        lemma_first_index(spec, ')');
        let r = declared(lead + spec + tail, next);
        assert forall|i: int|
            0 <= i < spec.len() && #[trigger] spec[i] == ')' && spec.contains('(') && !spec.take(
                i,
            ).contains('(') implies r is Err && r->Err_0 == (MtdError::Malformed { spec }) by {
            let open = first_index(spec, '(')->Some_0;
            let close = first_index(spec, ')')->Some_0;
            let k = spec.index_of('(');
            assert(spec[k] == '(');
            assert(first_index(spec, '(') is Some);
            assert(first_index(spec, ')') is Some);
            assert(close <= i);
            if open < i {
                assert(spec.take(i)[open] == '(');
                assert(spec.take(i).contains('('));
            }
        }
        if spec.contains('(') {
            assert(spec[spec.index_of('(')] == '(');
            assert(first_index(spec, '(') is Some);
        } else if first_index(spec, '(') is Some {
            assert(spec.contains(spec[first_index(spec, '(')->Some_0]));
        }
        if !spec.contains(')') && first_index(spec, ')') is Some {
            assert(spec.contains(spec[first_index(spec, ')')->Some_0]));
        }
    }
}

/// The partitions of the first pieces, and where the next piece continues.
pub open spec fn declared_so_far(list: Seq<Seq<char>>, next: u64) -> Result<
    (Seq<PartitionView>, u64),
    MtdError<Seq<char>>,
>
    decreases list.len(),
{
    if list.len() == 0 {
        Ok((Seq::empty(), next))
    } else {
        match declared_so_far(list.drop_last(), next) {
            Err(e) => Err(e),
            Ok((before, at)) => match declared(list.last(), at) {
                Err(e) => Err(e),
                Ok((partition, after)) => Ok((before.push(partition), after)),
            },
        }
    }
}

proof fn lemma_so_far_from_the_left(list: Seq<Seq<char>>, next: u64)
    requires
        list.len() > 0,
    ensures
        declared_so_far(list, next) == (match declared(list[0], next) {
            Err(e) => Err(e),
            Ok((p, after)) => match declared_so_far(list.skip(1), after) {
                Err(e) => Err(e),
                Ok((rest, end)) => Ok((seq![p] + rest, end)),
            },
        }),
    decreases list.len(),
{
    reveal_with_fuel(declared_so_far, 2);
    if list.len() == 1 {
        assert(list.drop_last() =~= Seq::empty());
        assert(list.skip(1) =~= Seq::empty());
        if declared(list[0], next) is Ok {
            let p = declared(list[0], next)->Ok_0.0;
            assert(Seq::<PartitionView>::empty().push(p) =~= seq![p] + Seq::empty());
        }
    } else {
        let front = list.drop_last();
        lemma_so_far_from_the_left(front, next);
        assert(list.skip(1).drop_last() =~= front.skip(1));
        assert(front[0] == list[0]);
        assert(list.skip(1).last() == list.last());
        if declared(list[0], next) is Ok {
            let (p, after) = declared(list[0], next)->Ok_0;
            if declared_so_far(front.skip(1), after) is Ok {
                let (rest, end) = declared_so_far(front.skip(1), after)->Ok_0;
                if declared(list.last(), end) is Ok {
                    let q = declared(list.last(), end)->Ok_0.0;
                    assert((seq![p] + rest).push(q) =~= seq![p] + rest.push(q));
                }
            }
        }
    }
}

/// Each piece of the list continues where the pieces before it ended, and the first piece that
/// is refused decides the error.
pub proof fn law_pieces_in_turn(list: Seq<Seq<char>>, next: u64)
    ensures
        declared_so_far(list, next) matches Ok(all) ==> declared_all(list, next) is Ok
            && declared_all(list, next)->Ok_0 == all.0,
        declared_so_far(list, next) matches Err(e) ==> declared_all(list, next) is Err
            && declared_all(list, next)->Err_0 == e,
    decreases list.len(),
{
    if list.len() > 0 {
        lemma_so_far_from_the_left(list, next);
        if declared(list[0], next) is Ok {
            law_pieces_in_turn(list.skip(1), declared(list[0], next)->Ok_0.1);
        }
    }
}

/// Without a colon nothing is declared.
pub proof fn law_colon_is_needed(s: Seq<char>)
    requires
        !s.contains(':'),
    ensures
        parsed(s) is Err,
        parsed(s)->Err_0 == MtdError::<Seq<char>>::MissingColon,
{
    let t = trimmed(s);
    let body = without_key(t);
    assert forall|j: int| 0 <= j < body.len() implies #[trigger] body[j] != ':' by {
        let k = j + t.len() - body.len();
        assert(body[j] == t[k]);
        lemma_trimmed_inside(s, k);
    }
    lemma_first_index_none(body, ':');
}

proof fn lemma_trimmed_inside(s: Seq<char>, k: int)
    requires
        0 <= k < trimmed(s).len(),
    ensures
        s.contains(trimmed(s)[k]),
{
    let a = trimmed_start(s);
    law_trimmed_start(s);
    law_trimmed_end(a);
    assert(trimmed(s)[k] == a[k]);
    let d = s.len() - a.len();
    assert(s[k + d] == a[k]);
}

/// What is seen of a partition is what it holds.
pub proof fn law_partition_view(p: Partition, list: Seq<Partition>, i: int)
    ensures
        p@.name == p.name@,
        p@.offset == p.offset,
        p@.size == p.size,
        views(list).len() == list.len(),
        0 <= i < list.len() ==> views(list)[i] == list[i]@,
{
}

/// The texts of the errors quote what is wrong.
pub proof fn law_mtdparts_texts(t: Seq<char>, c: char)
    ensures
        message_of(MtdError::MissingColon)
            == "mtdparts: missing ':' separating <mtd-id> from partitions"@,
        message_of(MtdError::EmptySpec) == "mtdparts: empty partition spec"@,
        message_of(MtdError::MissingOpen { spec: t }) == "mtdparts: missing '(' in '"@ + t + "'"@,
        message_of(MtdError::MissingClose { spec: t }) == "mtdparts: missing ')' in '"@ + t + "'"@,
        message_of(MtdError::Malformed { spec: t }) == "mtdparts: malformed '"@ + t + "'"@,
        message_of(MtdError::EmptySize) == "mtdparts: empty size"@,
        message_of(MtdError::UnknownSuffix { suffix: c, size: t })
            == "mtdparts: unknown size suffix '"@.push(c) + "' in '"@ + t + "'"@,
        message_of(MtdError::InvalidNumber { digits: t }) == "mtdparts: invalid number '"@ + t
            + "'"@,
        message_of(MtdError::SizeOverflow { size: t }) == "mtdparts: size overflow in '"@ + t
            + "'"@,
        message_of(MtdError::OffsetOverflow { name: t }) == "mtdparts: offset overflow at '"@ + t
            + "'"@,
{
}

/// What is seen of an error is its kind and the text it quotes.
pub proof fn law_mtdparts_error_view(e: MtdError<String>)
    ensures
        e is MissingColon <==> e@ is MissingColon,
        e is EmptySpec <==> e@ is EmptySpec,
        e is EmptySize <==> e@ is EmptySize,
        e matches MtdError::MissingOpen { spec } ==> e@ == (MtdError::MissingOpen { spec: spec@ }),
        e matches MtdError::MissingClose { spec } ==> e@ == (MtdError::MissingClose {
            spec: spec@,
        }),
        e matches MtdError::Malformed { spec } ==> e@ == (MtdError::Malformed { spec: spec@ }),
        e matches MtdError::UnknownSuffix { suffix, size } ==> e@ == (MtdError::UnknownSuffix {
            suffix,
            size: size@,
        }),
        e matches MtdError::InvalidNumber { digits } ==> e@ == (MtdError::InvalidNumber {
            digits: digits@,
        }),
        e matches MtdError::SizeOverflow { size } ==> e@ == (MtdError::SizeOverflow {
            size: size@,
        }),
        e matches MtdError::OffsetOverflow { name } ==> e@ == (MtdError::OffsetOverflow {
            name: name@,
        }),
{
}

} // verus!
