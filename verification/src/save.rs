use vstd::prelude::*;

verus! {

/// Bytes of a saved hi score: a four-byte magic tag, then the score.
pub const DISK_SIZE: u32 = 8;

/// The magic tag "SL01" that starts a saved hi score.
pub open spec fn disk_magic() -> Seq<u8> {
    seq![83u8, 76u8, 48u8, 49u8]
}

/// The number four little-endian bytes stand for.
pub open spec fn le_value(b: Seq<u8>) -> int {
    b[0] + 256 * b[1] + 65536 * b[2] + 16777216 * b[3]
}

/// The four little-endian bytes of a number.
pub open spec fn le_bytes(v: u32) -> Seq<u8> {
    seq![
        (v % 256) as u8,
        (v / 256 % 256) as u8,
        (v / 65536 % 256) as u8,
        (v / 16777216 % 256) as u8,
    ]
}

/// The hi score a disk read gives: the stored score when all eight bytes
/// were read and they start with the magic tag, else 0.
pub open spec fn decoded_hi_score(data: Seq<u8>, read: u32) -> u32 {
    if read == 8 && data.subrange(0, 4) == disk_magic() {
        le_value(data.subrange(4, 8)) as u32
    } else {
        0
    }
}

/// The hi score stored in the bytes a disk read returned.
pub fn decode_hi_score(data: &[u8; 8], read: u32) -> (score: u32)
    ensures
        score == decoded_hi_score(data@, read),
{
    let tagged = data[0] == 83 && data[1] == 76 && data[2] == 48 && data[3] == 49;
    assert(tagged == (data@.subrange(0, 4) =~= disk_magic()));
    if read == DISK_SIZE && tagged {
        let v = data[4] as u32 + data[5] as u32 * 256 + data[6] as u32 * 65536 + data[7] as u32
            * 16777216;
        assert(le_value(data@.subrange(4, 8)) == v);
        v
    } else {
        0
    }
}

/// The eight bytes that store a hi score: the magic tag, then the score in
/// little-endian order.
pub fn encode_hi_score(score: u32) -> (data: [u8; 8])
    ensures
        data@ == disk_magic() + le_bytes(score),
{
    let data = [
        83u8,
        76u8,
        48u8,
        49u8,
        (score % 256) as u8,
        (score / 256 % 256) as u8,
        (score / 65536 % 256) as u8,
        (score / 16777216 % 256) as u8,
    ];
    assert(data@ =~= disk_magic() + le_bytes(score));
    data
}

/// Reading back what was saved gives the saved score.
pub proof fn lemma_hi_score_round_trip(score: u32)
    ensures
        decoded_hi_score(disk_magic() + le_bytes(score), 8) == score,
{
    let data = disk_magic() + le_bytes(score);
    assert(data.subrange(0, 4) =~= disk_magic());
    assert(data.subrange(4, 8) =~= le_bytes(score));
    let s = score as int;
    assert(s % 256 + 256 * (s / 256 % 256) + 65536 * (s / 65536 % 256) + 16777216 * (s / 16777216
        % 256) == s) by (nonlinear_arith)
        requires
            0 <= s < 0x1_0000_0000,
    ;
}

} // verus!
