//! What the boot stage writes on the command line is what the early userspace
//! reads.

use vstd::prelude::*;
use vstd::utf8;
use crate::bytes;
use crate::digits;
use crate::efi::boot_kind;
use crate::efi::locator;
use crate::efi::locator::IsoLocation;
use crate::efi::protocol::GuidView;
use crate::init::cmdline;
use crate::init::cmdline::ParamsView;
use crate::text;

verus! {

pub open spec fn no_blanks(s: Seq<u8>) -> bool {
    forall|i: int| 0 <= i < s.len() ==> !cmdline::is_blank(#[trigger] s[i])
}

proof fn skip_within(head: Seq<u8>, rest: Seq<u8>, i: int)
    requires
        0 <= i <= head.len(),
    ensures
        ({
            let a = cmdline::skip_blanks(head, i);
            &&& i <= a <= head.len()
            &&& a < head.len() ==> cmdline::skip_blanks(head + rest, i) == a
            &&& a == head.len() ==> cmdline::skip_blanks(head + rest, i) == cmdline::skip_blanks(
                head + rest,
                head.len() as int,
            )
        }),
    decreases head.len() - i,
{
    if i < head.len() {
        assert((head + rest)[i] == head[i]);
        if cmdline::is_blank(head[i]) {
            skip_within(head, rest, i + 1);
        }
    }
}

proof fn token_within(head: Seq<u8>, rest: Seq<u8>, i: int)
    requires
        0 <= i <= head.len(),
        rest.len() > 0,
        cmdline::is_blank(rest[0]),
    ensures
        i <= cmdline::token_end(head, i) <= head.len(),
        i < head.len() && !cmdline::is_blank(head[i]) ==> i < cmdline::token_end(head, i),
        cmdline::token_end(head + rest, i) == cmdline::token_end(head, i),
    decreases head.len() - i,
{
    if i < head.len() {
        assert((head + rest)[i] == head[i]);
        if !cmdline::is_blank(head[i]) {
            token_within(head, rest, i + 1);
        }
    } else {
        assert((head + rest)[i] == rest[0]);
    }
}

proof fn token_to_end(s: Seq<u8>, i: int)
    requires
        0 <= i <= s.len(),
        forall|k: int| i <= k < s.len() ==> !cmdline::is_blank(#[trigger] s[k]),
    ensures
        cmdline::token_end(s, i) == s.len(),
    decreases s.len() - i,
{
    if i < s.len() {
        token_to_end(s, i + 1);
    }
}

/// A token behind a blank is taken in after all that stands before it.
pub proof fn another_token(head: Seq<u8>, tok: Seq<u8>, i: int, p: ParamsView)
    requires
        0 <= i <= head.len(),
        tok.len() > 0,
        no_blanks(tok),
    ensures
        cmdline::params_from(head + (seq![0x20u8] + tok), i, p) == cmdline::taken(
            cmdline::params_from(head, i, p),
            tok,
        ),
    decreases head.len() - i,
{
    let rest = seq![0x20u8] + tok;
    let s = head + rest;
    let a = cmdline::skip_blanks(head, i);
    skip_within(head, rest, i);
    if a < head.len() {
        let b = cmdline::token_end(head, a);
        token_within(head, rest, a);
        cmdline::skip_bounds(head, i);
        assert(s.subrange(a, b) =~= head.subrange(a, b));
        another_token(head, tok, b, cmdline::taken(p, head.subrange(a, b)));
    } else {
        let n = head.len() as int;
        assert(s[n] == 0x20);
        assert(s[n + 1] == tok[0]);
        reveal_with_fuel(cmdline::skip_blanks, 3);
        assert(cmdline::skip_blanks(s, i) == n + 1);
        assert forall|k: int| n + 1 <= k < s.len() implies !cmdline::is_blank(#[trigger] s[k]) by {
            assert(s[k] == tok[k - n - 1]);
        }
        token_to_end(s, n + 1);
        assert(s.subrange(n + 1, s.len() as int) =~= tok);
        reveal_with_fuel(cmdline::params_from, 3);
    }
}

proof fn equals_behind(key: Seq<u8>, val: Seq<u8>, i: int)
    requires
        0 <= i <= key.len(),
        forall|k: int| 0 <= k < key.len() ==> #[trigger] key[k] != 0x3D,
    ensures
        cmdline::equals_at(key + seq![0x3Du8] + val, i) == Some(key.len() as int),
    decreases key.len() - i,
{
    let t = key + seq![0x3Du8] + val;
    if i < key.len() {
        assert(t[i] == key[i]);
        equals_behind(key, val, i + 1);
    } else {
        assert(t[i] == 0x3D);
    }
}

/// Whether a text can be the key of a parameter.
pub open spec fn is_key(key: Seq<u8>) -> bool {
    forall|k: int|
        0 <= k < key.len() ==> #[trigger] key[k] != 0x3D && !cmdline::is_blank(key[k])
}

/// A parameter behind a blank sets what its key says to its value.
pub proof fn another_param(head: Seq<u8>, key: Seq<u8>, val: Seq<u8>)
    requires
        is_key(key),
        no_blanks(val),
    ensures
        cmdline::params_from(
            head + (seq![0x20u8] + key + seq![0x3Du8]) + val,
            0,
            cmdline::no_params(),
        ) == cmdline::taken_value(
            cmdline::params_from(head, 0, cmdline::no_params()),
            key,
            val,
        ),
{
    let tok = key + seq![0x3Du8] + val;
    assert(no_blanks(tok));
    another_token(head, tok, 0, cmdline::no_params());
    assert(head + (seq![0x20u8] + tok) =~= head + (seq![0x20u8] + key + seq![0x3Du8]) + val);
    equals_behind(key, val, 0);
    assert(tok.take(key.len() as int) =~= key);
    assert(tok.skip(key.len() as int + 1) =~= val);
}

proof fn guid_key()
    ensures
        is_key(bytes::text("choosable.part_guid")),
        bytes::text(" choosable.part_guid=") == seq![0x20u8] + bytes::text("choosable.part_guid") + seq![0x3Du8],
        bytes::text("choosable.part_guid").len() == 19,
        bytes::text("choosable.part_guid")[10] == 0x70,
        bytes::text("choosable.part_guid")[14] == 0x5F,
{
    reveal_strlit("choosable.part_guid");
    reveal_strlit(" choosable.part_guid=");
    vstd::string::is_ascii_spec_bytes("choosable.part_guid");
    vstd::string::is_ascii_spec_bytes(" choosable.part_guid=");
    let key = bytes::text("choosable.part_guid");
    assert(key =~= seq![
            0x63u8, 0x68, 0x6F, 0x6F, 0x73, 0x61, 0x62, 0x6C, 0x65, 0x2E, 0x70, 0x61, 0x72, 0x74, 0x5F, 0x67, 0x75, 0x69, 0x64,
        ]);
    assert(bytes::text(" choosable.part_guid=") =~= seq![0x20u8] + key + seq![0x3Du8]);
}

proof fn num_key()
    ensures
        is_key(bytes::text("choosable.part_num")),
        bytes::text(" choosable.part_num=") == seq![0x20u8] + bytes::text("choosable.part_num") + seq![0x3Du8],
        bytes::text("choosable.part_num").len() == 18,
        bytes::text("choosable.part_num")[10] == 0x70,
        bytes::text("choosable.part_num")[14] == 0x5F,
{
    reveal_strlit("choosable.part_num");
    reveal_strlit(" choosable.part_num=");
    vstd::string::is_ascii_spec_bytes("choosable.part_num");
    vstd::string::is_ascii_spec_bytes(" choosable.part_num=");
    let key = bytes::text("choosable.part_num");
    assert(key =~= seq![
            0x63u8, 0x68, 0x6F, 0x6F, 0x73, 0x61, 0x62, 0x6C, 0x65, 0x2E, 0x70, 0x61, 0x72, 0x74, 0x5F, 0x6E, 0x75, 0x6D,
        ]);
    assert(bytes::text(" choosable.part_num=") =~= seq![0x20u8] + key + seq![0x3Du8]);
}

proof fn offset_key()
    ensures
        is_key(bytes::text("choosable.iso_offset")),
        bytes::text(" choosable.iso_offset=") == seq![0x20u8] + bytes::text("choosable.iso_offset") + seq![0x3Du8],
        bytes::text("choosable.iso_offset").len() == 20,
        bytes::text("choosable.iso_offset")[10] == 0x69,
        bytes::text("choosable.iso_offset")[14] == 0x6F,
{
    reveal_strlit("choosable.iso_offset");
    reveal_strlit(" choosable.iso_offset=");
    vstd::string::is_ascii_spec_bytes("choosable.iso_offset");
    vstd::string::is_ascii_spec_bytes(" choosable.iso_offset=");
    let key = bytes::text("choosable.iso_offset");
    assert(key =~= seq![
            0x63u8, 0x68, 0x6F, 0x6F, 0x73, 0x61, 0x62, 0x6C, 0x65, 0x2E, 0x69, 0x73, 0x6F, 0x5F, 0x6F, 0x66, 0x66, 0x73, 0x65, 0x74,
        ]);
    assert(bytes::text(" choosable.iso_offset=") =~= seq![0x20u8] + key + seq![0x3Du8]);
}

proof fn path_key()
    ensures
        is_key(bytes::text("choosable.iso_path")),
        bytes::text(" choosable.iso_path=") == seq![0x20u8] + bytes::text("choosable.iso_path") + seq![0x3Du8],
        bytes::text("choosable.iso_path").len() == 18,
        bytes::text("choosable.iso_path")[10] == 0x69,
        bytes::text("choosable.iso_path")[14] == 0x70,
{
    reveal_strlit("choosable.iso_path");
    reveal_strlit(" choosable.iso_path=");
    vstd::string::is_ascii_spec_bytes("choosable.iso_path");
    vstd::string::is_ascii_spec_bytes(" choosable.iso_path=");
    let key = bytes::text("choosable.iso_path");
    assert(key =~= seq![
            0x63u8, 0x68, 0x6F, 0x6F, 0x73, 0x61, 0x62, 0x6C, 0x65, 0x2E, 0x69, 0x73, 0x6F, 0x5F, 0x70, 0x61, 0x74, 0x68,
        ]);
    assert(bytes::text(" choosable.iso_path=") =~= seq![0x20u8] + key + seq![0x3Du8]);
}

proof fn size_key()
    ensures
        is_key(bytes::text("choosable.iso_size")),
        bytes::text(" choosable.iso_size=") == seq![0x20u8] + bytes::text("choosable.iso_size") + seq![0x3Du8],
        bytes::text("choosable.iso_size").len() == 18,
        bytes::text("choosable.iso_size")[10] == 0x69,
        bytes::text("choosable.iso_size")[14] == 0x73,
{
    reveal_strlit("choosable.iso_size");
    reveal_strlit(" choosable.iso_size=");
    vstd::string::is_ascii_spec_bytes("choosable.iso_size");
    vstd::string::is_ascii_spec_bytes(" choosable.iso_size=");
    let key = bytes::text("choosable.iso_size");
    assert(key =~= seq![
            0x63u8, 0x68, 0x6F, 0x6F, 0x73, 0x61, 0x62, 0x6C, 0x65, 0x2E, 0x69, 0x73, 0x6F, 0x5F, 0x73, 0x69, 0x7A, 0x65,
        ]);
    assert(bytes::text(" choosable.iso_size=") =~= seq![0x20u8] + key + seq![0x3Du8]);
}

proof fn digits_have_no_blanks(v: nat)
    ensures
        no_blanks(digits::decimal(v)),
{
    digits::decimal_round_trip(v);
}

/// Whether a byte belongs to a lower-case GUID.
pub open spec fn guid_byte(b: u8) -> bool {
    0x30 <= b <= 0x39 || 0x61 <= b <= 0x66 || b == 0x2D
}

pub open spec fn guid_bytes(s: Seq<u8>) -> bool {
    forall|i: int| 0 <= i < s.len() ==> guid_byte(#[trigger] s[i])
}

proof fn hex_is_guid_bytes(v: nat, n: nat)
    ensures
        guid_bytes(digits::hex(v, n, boot_kind::LOWER_A)),
    decreases n,
{
    if n > 0 {
        hex_is_guid_bytes(v / 16, (n - 1) as nat);
    }
}

proof fn partuuid_is_guid_bytes(g: GuidView)
    ensures
        guid_bytes(boot_kind::partuuid(g)),
{
    hex_is_guid_bytes(g.d1 as nat, 8);
    hex_is_guid_bytes(g.d2 as nat, 4);
    hex_is_guid_bytes(g.d3 as nat, 4);
    hex_is_guid_bytes(g.d4[0] as nat, 2);
    hex_is_guid_bytes(g.d4[1] as nat, 2);
    hex_is_guid_bytes(g.d4[2] as nat, 2);
    hex_is_guid_bytes(g.d4[3] as nat, 2);
    hex_is_guid_bytes(g.d4[4] as nat, 2);
    hex_is_guid_bytes(g.d4[5] as nat, 2);
    hex_is_guid_bytes(g.d4[6] as nat, 2);
    hex_is_guid_bytes(g.d4[7] as nat, 2);
}

/// The parameter of a partition UUID, read.
proof fn uuid_reads(p: ParamsView, loc: IsoLocation)
    ensures
        no_blanks(boot_kind::location_uuid(loc)),
        cmdline::taken_value(p, bytes::text("choosable.part_guid"), boot_kind::location_uuid(loc))
            == (ParamsView { part_guid: Some(text::ascii(boot_kind::location_uuid(loc))), ..p }),
{
    let val = boot_kind::location_uuid(loc);
    guid_key();
    offset_key();
    partuuid_is_guid_bytes(loc.partition_guid@);
    hex_is_guid_bytes(loc.partition_guid@.d1 as nat, 8);
    hex_is_guid_bytes(loc.partition_number as nat, 2);
    text::ascii_is_utf8(val);
    assert(text::lower(text::ascii(val)) =~= text::ascii(val));
}

proof fn number_reads(v: nat, max: int)
    requires
        v <= max,
    ensures
        cmdline::number(digits::decimal(v), max) == v,
{
    digits::decimal_round_trip(v);
}

proof fn num_reads(p: ParamsView, v: u32)
    requires
        v > 0,
    ensures
        no_blanks(digits::decimal(v as nat)),
        cmdline::taken_value(p, bytes::text("choosable.part_num"), digits::decimal(v as nat)) == (
        ParamsView { part_num: Some(v), ..p }),
{
    guid_key();
    num_key();
    offset_key();
    digits_have_no_blanks(v as nat);
    number_reads(v as nat, u32::MAX as int);
}

proof fn offset_reads(p: ParamsView, v: u64)
    requires
        0 < v <= cmdline::MAX_OFFSET,
    ensures
        no_blanks(digits::decimal(v as nat)),
        cmdline::taken_value(p, bytes::text("choosable.iso_offset"), digits::decimal(v as nat))
            == (ParamsView { iso_offset: Some(v), ..p }),
{
    digits_have_no_blanks(v as nat);
    number_reads(v as nat, u64::MAX as int);
}

proof fn path_reads(p: ParamsView, path: Seq<u8>)
    requires
        utf8::valid_utf8(path),
    ensures
        cmdline::taken_value(p, bytes::text("choosable.iso_path"), path) == (ParamsView {
            iso_path: Some(utf8::decode_utf8(path)),
            ..p
        }),
{
    guid_key();
    num_key();
    offset_key();
    path_key();
}

proof fn size_reads(p: ParamsView, v: u64)
    requires
        v > 0,
    ensures
        no_blanks(digits::decimal(v as nat)),
        cmdline::taken_value(p, bytes::text("choosable.iso_size"), digits::decimal(v as nat)) == (
        ParamsView { iso_size: Some(v), ..p }),
{
    guid_key();
    num_key();
    offset_key();
    path_key();
    size_key();
    digits_have_no_blanks(v as nat);
    number_reads(v as nat, u64::MAX as int);
}

/// One more parameter, with its key as the boot stage writes it.
proof fn written_param(head: Seq<u8>, written: Seq<u8>, key: Seq<u8>, val: Seq<u8>)
    requires
        is_key(key),
        written == seq![0x20u8] + key + seq![0x3Du8],
        no_blanks(val),
    ensures
        cmdline::params_from(head + written + val, 0, cmdline::no_params())
            == cmdline::taken_value(
            cmdline::params_from(head, 0, cmdline::no_params()),
            key,
            val,
        ),
{
    another_param(head, key, val);
}

proof fn assembled(head: Seq<u8>, a: Seq<u8>, b: Seq<u8>, c: Seq<u8>)
    ensures
        head + (a + b + c) == head + a + b + c,
{
    assert(head + (a + b + c) =~= head + a + b + c);
}

/// What is read of a location that was handed over.
pub open spec fn location_read(loc: IsoLocation) -> ParamsView {
    ParamsView {
        iso_offset: Some(((loc.iso_lba - loc.part1_lba) * 512) as u64),
        part_guid: Some(text::ascii(boot_kind::location_uuid(loc))),
        part_num: Some(loc.partition_number),
        iso_path: Some(utf8::decode_utf8(locator::relative(loc.spec_path()))),
        iso_size: Some(loc.file_size),
    }
}

/// The parameters that are read of the front of what is handed over.
proof fn front_reads_back(head: Seq<u8>, loc: IsoLocation)
    requires
        boot_kind::offset_fits(loc),
        loc.partition_number > 0,
        0 < (loc.iso_lba - loc.part1_lba) * 512 <= cmdline::MAX_OFFSET,
    ensures
        cmdline::params_from(head + boot_kind::params_front(loc), 0, cmdline::no_params()) == (
        ParamsView {
            part_guid: location_read(loc).part_guid,
            part_num: location_read(loc).part_num,
            iso_offset: location_read(loc).iso_offset,
            ..cmdline::params_from(head, 0, cmdline::no_params())
        }),
{
    let none = cmdline::no_params();
    let uuid = boot_kind::location_uuid(loc);
    let off = ((loc.iso_lba - loc.part1_lba) * 512) as u64;
    let num = digits::decimal(loc.partition_number as nat);
    let offset = digits::decimal(off as nat);
    let h1 = head + boot_kind::params_guid(loc);
    let h2 = head + boot_kind::params_num(loc);
    guid_key();
    num_key();
    offset_key();
    uuid_reads(cmdline::params_from(head, 0, none), loc);
    written_param(
        head,
        bytes::text(" choosable.part_guid="),
        bytes::text("choosable.part_guid"),
        uuid,
    );
    assert(h1 =~= head + bytes::text(" choosable.part_guid=") + uuid);
    num_reads(cmdline::params_from(h1, 0, none), loc.partition_number);
    written_param(
        h1,
        bytes::text(" choosable.part_num="),
        bytes::text("choosable.part_num"),
        num,
    );
    assembled(head, boot_kind::params_guid(loc), bytes::text(" choosable.part_num="), num);
    offset_reads(cmdline::params_from(h2, 0, none), off);
    written_param(
        h2,
        bytes::text(" choosable.iso_offset="),
        bytes::text("choosable.iso_offset"),
        offset,
    );
    assembled(head, boot_kind::params_num(loc), bytes::text(" choosable.iso_offset="), offset);
}

/// The early userspace reads back the location that the boot stage hands over,
/// whatever else stands on the command line before it. A path can be handed
/// over where it is UTF-8 without blanks, and an offset where it is neither 0
/// nor beyond what the early userspace takes.
pub proof fn location_reads_back(head: Seq<u8>, loc: IsoLocation)
    requires
        boot_kind::offset_fits(loc),
        loc.partition_number > 0,
        loc.file_size > 0,
        0 < (loc.iso_lba - loc.part1_lba) * 512 <= cmdline::MAX_OFFSET,
        locator::relative(loc.spec_path()).len() > 0,
        no_blanks(locator::relative(loc.spec_path())),
        utf8::valid_utf8(locator::relative(loc.spec_path())),
    ensures
        cmdline::params_from(
            head + boot_kind::location_params(loc),
            0,
            cmdline::no_params(),
        ) == location_read(loc),
{
    let none = cmdline::no_params();
    let path = locator::relative(loc.spec_path());
    let size = digits::decimal(loc.file_size as nat);
    let h3 = head + boot_kind::params_front(loc);
    let h4 = head + boot_kind::params_path(loc);
    path_key();
    size_key();
    front_reads_back(head, loc);
    path_reads(cmdline::params_from(h3, 0, none), path);
    written_param(
        h3,
        bytes::text(" choosable.iso_path="),
        bytes::text("choosable.iso_path"),
        path,
    );
    assembled(head, boot_kind::params_front(loc), bytes::text(" choosable.iso_path="), path);
    size_reads(cmdline::params_from(h4, 0, none), loc.file_size);
    written_param(
        h4,
        bytes::text(" choosable.iso_size="),
        bytes::text("choosable.iso_size"),
        size,
    );
    assembled(head, boot_kind::params_path(loc), bytes::text(" choosable.iso_size="), size);
}

/// The numbers of the command line count where they can be right: an offset from 1 on
/// up to 2 TiB, a partition from 1 on, a size from 1 on. Any other leaves what was
/// known before.
pub proof fn numbers_are_taken_where_they_can_be_right(p: ParamsView, v: nat)
    ensures
        cmdline::taken_value(p, bytes::text("choosable.iso_offset"), digits::decimal(v)) == (if 0 < v
            <= 2199023255552 {
            ParamsView { iso_offset: Some(v as u64), ..p }
        } else {
            p
        }),
        cmdline::taken_value(p, bytes::text("choosable.part_num"), digits::decimal(v)) == (if v == 0 {
            p
        } else if v <= u32::MAX {
            ParamsView { part_num: Some(v as u32), ..p }
        } else {
            ParamsView { part_num: Some(u32::MAX), ..p }
        }),
        cmdline::taken_value(p, bytes::text("choosable.iso_size"), digits::decimal(v)) == (if v == 0 {
            p
        } else if v <= u64::MAX {
            ParamsView { iso_size: Some(v as u64), ..p }
        } else {
            ParamsView { iso_size: Some(u64::MAX), ..p }
        }),
{
    digits::decimal_round_trip(v);
    guid_key();
    num_key();
    offset_key();
    path_key();
    size_key();
    let guid = bytes::text("choosable.part_guid");
    let num = bytes::text("choosable.part_num");
    let offset = bytes::text("choosable.iso_offset");
    let path = bytes::text("choosable.iso_path");
    let size = bytes::text("choosable.iso_size");
    assert(num != guid && num != offset && size != guid && size != offset && offset != guid);
    assert(num[10] != size[10]);
    assert(size[14] != path[14]);
}

/// An argument without a value changes nothing, and neither does one of another name.
pub proof fn other_arguments_are_passed_over(p: ParamsView, key: Seq<u8>, val: Seq<u8>, t: Seq<u8>)
    requires
        key != bytes::text("choosable.iso_offset"),
        key != bytes::text("choosable.part_guid"),
        key != bytes::text("choosable.part_num"),
        key != bytes::text("choosable.iso_path"),
        key != bytes::text("choosable.iso_size"),
        forall|i: int| 0 <= i < t.len() ==> #[trigger] t[i] != 0x3D,
    ensures
        cmdline::taken_value(p, key, val) == p,
        cmdline::taken(p, t) == p,
{
    no_equals(t, 0);
}

proof fn no_equals(t: Seq<u8>, i: int)
    requires
        0 <= i,
        forall|k: int| 0 <= k < t.len() ==> #[trigger] t[k] != 0x3D,
    ensures
        cmdline::equals_at(t, i) is None,
    decreases t.len() - i,
{
    if i < t.len() {
        assert(t[i] != 0x3D);
        no_equals(t, i + 1);
    }
}

} // verus!
