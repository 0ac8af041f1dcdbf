//! The durable checkpoint: a single block height persisted as plain
//! decimal text, read back on restart to resume consumption.

use vstd::prelude::*;

verus! {

/// Why a stored checkpoint could not be read back.
#[derive(Clone, Copy, Debug, PartialEq, Eq, Structural)]
pub enum CheckpointError {
    /// No checkpoint value exists yet: nothing was ever processed.
    NotFound,
    /// The stored content is not the decimal text of a block height.
    Corrupt,
}

/// `b` is the ASCII code of a decimal digit.
pub open spec fn is_dec_digit(b: u8) -> bool {
    0x30 <= b <= 0x39
}

/// Every byte of `s` is an ASCII decimal digit.
pub open spec fn all_dec_digits(s: Seq<u8>) -> bool {
    forall|i: int| 0 <= i < s.len() ==> is_dec_digit(#[trigger] s[i])
}

/// The number denoted by a sequence of ASCII decimal digits,
/// most significant digit first.
pub open spec fn dec_value(s: Seq<u8>) -> nat
    decreases s.len(),
{
    if s.len() == 0 {
        0
    } else {
        (dec_value(s.drop_last()) * 10 + (s.last() - 0x30)) as nat
    }
}

/// `s` is a stored checkpoint that reads back as a block height:
/// non-empty decimal text whose value fits in a `u64`.
pub open spec fn valid_checkpoint_bytes(s: Seq<u8>) -> bool {
    &&& s.len() > 0
    &&& all_dec_digits(s)
    &&& dec_value(s) <= u64::MAX
}

/// The value of a digit-string prefix never exceeds the value of the
/// whole string: appending digits can only grow the denoted number.
pub proof fn lemma_dec_value_prefix_le(s: Seq<u8>, i: int)
    requires
        0 <= i <= s.len(),
        all_dec_digits(s),
    ensures
        dec_value(s.subrange(0, i)) <= dec_value(s),
    decreases s.len() - i,
{
    if i == s.len() {
        assert(s.subrange(0, i) =~= s);
    } else {
        assert(s.subrange(0, i + 1).drop_last() =~= s.subrange(0, i));
        assert(s.subrange(0, i + 1).last() == s[i]);
        assert(is_dec_digit(s[i]));
        assert(dec_value(s.subrange(0, i)) <= dec_value(s.subrange(0, i + 1)));
        lemma_dec_value_prefix_le(s, i + 1);
    }
}

/// Parse the durable checkpoint text back into a block height.
///
/// Returns the denoted height exactly when `bytes` is non-empty decimal
/// text whose value fits in a `u64`; any other content is `Corrupt`.
pub fn parse_checkpoint(bytes: &Vec<u8>) -> (r: Result<u64, CheckpointError>)
    ensures
        valid_checkpoint_bytes(bytes@) ==> r == Ok::<u64, CheckpointError>(dec_value(bytes@) as u64),
        !valid_checkpoint_bytes(bytes@) ==> r == Err::<u64, CheckpointError>(CheckpointError::Corrupt),
{
    if bytes.len() == 0 {
        return Err(CheckpointError::Corrupt);
    }
    let mut v: u64 = 0;
    let mut i: usize = 0;
    while i < bytes.len()
        invariant
            0 <= i <= bytes@.len(),
            all_dec_digits(bytes@.subrange(0, i as int)),
            v == dec_value(bytes@.subrange(0, i as int)),
        decreases bytes@.len() - i,
    {
        let b = bytes[i];
        proof {
            assert(bytes@.subrange(0, i + 1).drop_last() =~= bytes@.subrange(0, i as int));
            assert(bytes@.subrange(0, i + 1).last() == bytes@[i as int]);
        }
        if b < 0x30 || b > 0x39 {
            assert(!is_dec_digit(bytes@[i as int]));
            return Err(CheckpointError::Corrupt);
        }
        let d: u64 = (b - 0x30) as u64;
        if v > (u64::MAX - d) / 10 {
            proof {
                assert(dec_value(bytes@.subrange(0, i + 1)) > u64::MAX);
                if all_dec_digits(bytes@) {
                    lemma_dec_value_prefix_le(bytes@, i + 1);
                }
            }
            return Err(CheckpointError::Corrupt);
        }
        v = v * 10 + d;
        i = i + 1;
    }
    proof {
        assert(bytes@.subrange(0, i as int) =~= bytes@);
    }
    Ok(v)
}

/// The decimal digit string of `n`, most significant digit first,
/// with no leading zero (a lone `0` stands for zero itself).
pub open spec fn dec_digits(n: nat) -> Seq<u8>
    decreases n,
{
    if n < 10 {
        seq![(0x30 + n) as u8]
    } else {
        dec_digits(n / 10).push((0x30 + n % 10) as u8)
    }
}

/// `dec_digits` is a right inverse of `dec_value`: the digit string of
/// `n` is well-formed, canonical, and denotes `n` itself.
pub proof fn lemma_dec_digits_correct(n: nat)
    ensures
        dec_digits(n).len() >= 1,
        all_dec_digits(dec_digits(n)),
        dec_value(dec_digits(n)) == n,
        n >= 10 ==> dec_digits(n)[0] != 0x30,
    decreases n,
{
    if n < 10 {
        let s = dec_digits(n);
        assert(s.drop_last() =~= Seq::<u8>::empty());
        assert(dec_value(Seq::<u8>::empty()) == 0);
        assert(s.last() == (0x30 + n) as u8);
        assert(s.last() - 0x30 == n);
        assert(dec_value(s) == n);
    } else {
        lemma_dec_digits_correct(n / 10);
        let p = dec_digits(n / 10);
        let d: u8 = (0x30 + n % 10) as u8;
        let s = dec_digits(n);
        assert(s == p.push(d));
        assert(s.drop_last() =~= p);
        assert(s.last() == d);
        assert((n / 10) * 10 + n % 10 == n) by {
            vstd::arithmetic::div_mod::lemma_fundamental_div_mod(n as int, 10);
        }
        assert(dec_value(s) == n);
        assert forall|i: int| 0 <= i < s.len() implies is_dec_digit(#[trigger] s[i]) by {
            if i < p.len() {
                assert(s[i] == p[i]);
            }
        }
        assert(n / 10 >= 1);
        assert(s[0] == p[0]);
        if n / 10 < 10 {
            assert(p[0] == (0x30 + n / 10) as u8);
        }
    }
}

/// Render a block height as the decimal text persisted durably.
///
/// The result always parses back to `h`: this is the round trip that
/// lets a restarted process resume exactly where this one stopped.
pub fn encode_checkpoint(h: u64) -> (r: Vec<u8>)
    ensures
        r@ == dec_digits(h as nat),
        valid_checkpoint_bytes(r@),
        dec_value(r@) == h,
{
    let mut out: Vec<u8> = Vec::new();
    push_dec_digits(h, &mut out);
    proof {
        lemma_dec_digits_correct(h as nat);
        assert(out@ =~= dec_digits(h as nat));
    }
    out
}

/// Append the decimal digits of `h` to `out`, most significant first.
fn push_dec_digits(h: u64, out: &mut Vec<u8>)
    ensures
        final(out)@ == old(out)@ + dec_digits(h as nat),
    decreases h,
{
    if h >= 10 {
        push_dec_digits(h / 10, out);
    }
    let d: u8 = 0x30 + (h % 10) as u8;
    out.push(d);
    proof {
        if h < 10 {
            assert(old(out)@ + dec_digits(h as nat) =~= old(out)@.push(d));
        } else {
            assert((h / 10) as nat == (h as nat) / 10);
            assert(old(out)@ + dec_digits(h as nat)
                =~= (old(out)@ + dec_digits((h as nat) / 10)).push(d));
        }
    }
}

/// The durable single-value store for the last processed block height.
///
/// The store holds the raw bytes of the persisted value, exactly as a
/// crash could leave them: absent before any successful run, or any
/// byte string at all — `read` decides whether they denote a height.
/// A write replaces the whole value atomically; there is no partial
/// state between the previous value and the new one.
pub struct CheckpointStore {
    raw: Option<Vec<u8>>,
}

impl View for CheckpointStore {
    type V = Option<Seq<u8>>;

    closed spec fn view(&self) -> Option<Seq<u8>> {
        match self.raw {
            Some(ref b) => Some(b@),
            None => None,
        }
    }
}

/// What `CheckpointStore::read` returns for given durable contents:
/// absent is `NotFound`, anything but well-formed decimal text is
/// `Corrupt`, and well-formed text denotes its height.
pub open spec fn read_spec(v: Option<Seq<u8>>) -> Result<u64, CheckpointError> {
    match v {
        None => Err(CheckpointError::NotFound),
        Some(s) => if valid_checkpoint_bytes(s) {
            Ok(dec_value(s) as u64)
        } else {
            Err(CheckpointError::Corrupt)
        },
    }
}

impl CheckpointStore {
    /// A store in which nothing was ever persisted.
    pub fn new() -> (s: Self)
        ensures
            s@ == Option::<Seq<u8>>::None,
    {
        CheckpointStore { raw: None }
    }

    /// A store whose durable value currently holds `bytes` — however a
    /// previous run, or corruption, left them.
    pub fn from_bytes(bytes: Vec<u8>) -> (s: Self)
        ensures
            s@ == Some(bytes@),
    {
        CheckpointStore { raw: Some(bytes) }
    }

    /// Read the last processed height back, without changing the store.
    pub fn read(&self) -> (r: Result<u64, CheckpointError>)
        ensures
            r == read_spec(self@),
    {
        match &self.raw {
            None => Err(CheckpointError::NotFound),
            Some(bytes) => parse_checkpoint(bytes),
        }
    }

    /// Persist `h`, overwriting whatever value was held before.
    pub fn write(&mut self, h: u64)
        ensures
            final(self)@ == Some(dec_digits(h as nat)),
            read_spec(final(self)@) == Ok::<u64, CheckpointError>(h),
    {
        self.raw = Some(encode_checkpoint(h));
        proof {
            lemma_dec_digits_correct(h as nat);
        }
    }
}

} // verus!
