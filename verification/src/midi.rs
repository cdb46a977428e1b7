use vstd::prelude::*;
use vstd::string::*;

verus! {

/// A melody rendered as a MIDI file: the pitch sequence, one MIDI value per
/// note, and the serialized bytes of the file.
pub struct MIDIFile {
    /// MIDI value of each note of the melody, in order
    pub sequence: Vec<u8>,
    /// Serialized file
    pub data: Vec<u8>,
}

/// The character of one decimal digit.
pub open spec fn digit_char(d: int) -> char {
    if d == 0 {
        '0'
    } else if d == 1 {
        '1'
    } else if d == 2 {
        '2'
    } else if d == 3 {
        '3'
    } else if d == 4 {
        '4'
    } else if d == 5 {
        '5'
    } else if d == 6 {
        '6'
    } else if d == 7 {
        '7'
    } else if d == 8 {
        '8'
    } else {
        '9'
    }
}

/// Characters that paths in archives are made of: digits, small letters,
/// the dot and the separator.
pub open spec fn plain_char(c: char) -> bool {
    ('0' <= c && c <= '9') || ('a' <= c && c <= 'z') || c == '.' || c == '/'
}

/// A path made of plain characters only.
pub open spec fn plain_path(path: Seq<char>) -> bool {
    forall|i: int| 0 <= i < path.len() ==> plain_char(#[trigger] path[i])
}

/// Decimal rendering of a pitch, zero-padded to two characters.
pub open spec fn render_pitch(v: u8) -> Seq<char> {
    if v < 100 {
        seq![digit_char(v as int / 10), digit_char(v as int % 10)]
    } else {
        seq![digit_char(v as int / 100), digit_char((v as int / 10) % 10), digit_char(v as int % 10)]
    }
}

/// Concatenated renderings of a run of pitches.
pub open spec fn render_pitches(pitches: Seq<u8>) -> Seq<char>
    decreases pitches.len(),
{
    if pitches.len() == 0 {
        Seq::empty()
    } else {
        render_pitches(pitches.drop_last()) + render_pitch(pitches.last())
    }
}

/// File name of a melody inside an archive: its hash and the MIDI extension.
pub open spec fn file_name(pitches: Seq<u8>) -> Seq<char> {
    render_pitches(pitches) + seq!['.', 'm', 'i', 'd']
}

fn digit_str(d: u8) -> (s: &'static str)
    requires
        d < 10,
    ensures
        s@ == seq![digit_char(d as int)],
{
    proof {
        reveal_strlit("0");
        reveal_strlit("1");
        reveal_strlit("2");
        reveal_strlit("3");
        reveal_strlit("4");
        reveal_strlit("5");
        reveal_strlit("6");
        reveal_strlit("7");
        reveal_strlit("8");
        reveal_strlit("9");
    }
    let s = match d {
        0 => "0",
        1 => "1",
        2 => "2",
        3 => "3",
        4 => "4",
        5 => "5",
        6 => "6",
        7 => "7",
        8 => "8",
        _ => "9",
    };
    assert(s@ =~= seq![digit_char(d as int)]);
    s
}

/// Appends the decimal rendering of one pitch to `out`.
pub fn push_pitch(out: &mut String, v: u8)
    ensures
        final(out)@ == old(out)@ + render_pitch(v),
{
    if v >= 100 {
        out.append(digit_str(v / 100));
    }
    out.append(digit_str((v / 10) % 10));
    out.append(digit_str(v % 10));
    assert(out@ =~= old(out)@ + render_pitch(v));
}

/// Appends the renderings of `pitches[from..to]` to `out`.
pub fn push_pitches(out: &mut String, pitches: &Vec<u8>, from: usize, to: usize)
    requires
        from <= to <= pitches.len(),
    ensures
        final(out)@ == old(out)@ + render_pitches(pitches@.subrange(from as int, to as int)),
{
    let mut i: usize = from;
    assert(pitches@.subrange(from as int, from as int) =~= Seq::<u8>::empty());
    assert(out@ =~= old(out)@ + render_pitches(pitches@.subrange(from as int, i as int)));
    while i < to
        invariant
            from <= i <= to <= pitches.len(),
            out@ == old(out)@ + render_pitches(pitches@.subrange(from as int, i as int)),
        decreases to - i,
    {
        push_pitch(out, pitches[i]);
        proof {
            let next = pitches@.subrange(from as int, i + 1);
            assert(next.drop_last() =~= pitches@.subrange(from as int, i as int));
            assert(next.last() == pitches@[i as int]);
            assert(out@ =~= old(out)@ + render_pitches(next));
        }
        i = i + 1;
    }
}

/// Decimal rendering of a number, without leading zeros.
pub open spec fn render_decimal(n: nat) -> Seq<char>
    decreases n,
{
    if n < 10 {
        seq![digit_char(n as int)]
    } else {
        render_decimal(n / 10) + seq![digit_char((n % 10) as int)]
    }
}

/// Appends the decimal rendering of `n` to `out`.
pub fn push_decimal(out: &mut String, n: u32)
    ensures
        final(out)@ == old(out)@ + render_decimal(n as nat),
    decreases n,
{
    if n >= 10 {
        push_decimal(out, n / 10);
    }
    out.append(digit_str((n % 10) as u8));
    assert(out@ =~= old(out)@ + render_decimal(n as nat));
}

/// Renderings of pitches are made of digits.
pub proof fn lemma_render_plain(pitches: Seq<u8>)
    ensures
        plain_path(render_pitches(pitches)),
    decreases pitches.len(),
{
    if pitches.len() > 0 {
        lemma_render_plain(pitches.drop_last());
        let front = render_pitches(pitches.drop_last());
        let last = render_pitch(pitches.last());
        assert(plain_path(last));
        assert forall|i: int| 0 <= i < (front + last).len() implies plain_char(
            #[trigger] (front + last)[i],
        ) by {
            if i < front.len() {
                assert((front + last)[i] == front[i]);
            } else {
                assert((front + last)[i] == last[i - front.len()]);
            }
        }
    }
}

/// Renderings of numbers are made of digits.
pub proof fn lemma_decimal_plain(n: nat)
    ensures
        plain_path(render_decimal(n)),
    decreases n,
{
    if n >= 10 {
        lemma_decimal_plain(n / 10);
        let front = render_decimal(n / 10);
        let last = seq![digit_char((n % 10) as int)];
        assert forall|i: int| 0 <= i < (front + last).len() implies plain_char(
            #[trigger] (front + last)[i],
        ) by {
            if i < front.len() {
                assert((front + last)[i] == front[i]);
            } else {
                assert((front + last)[i] == last[0]);
            }
        }
    }
}

/// Two plain paths put together are a plain path.
pub proof fn lemma_concat_plain(a: Seq<char>, b: Seq<char>)
    requires
        plain_path(a),
        plain_path(b),
    ensures
        plain_path(a + b),
{
    assert forall|i: int| 0 <= i < (a + b).len() implies plain_char(#[trigger] (a + b)[i]) by {
        if i < a.len() {
            assert((a + b)[i] == a[i]);
        } else {
            assert((a + b)[i] == b[i - a.len()]);
        }
    }
}

/// File names are plain paths.
pub proof fn lemma_file_name_plain(pitches: Seq<u8>)
    ensures
        plain_path(file_name(pitches)),
{
    lemma_render_plain(pitches);
    lemma_concat_plain(render_pitches(pitches), seq!['.', 'm', 'i', 'd']);
}

impl MIDIFile {
    /// Pairs a pitch sequence with the serialized file that was built from it.
    pub fn new(sequence: Vec<u8>, data: Vec<u8>) -> (mfile: Self)
        ensures
            mfile.sequence == sequence,
            mfile.data == data,
    {
        MIDIFile { sequence, data }
    }

    /// Hash of the melody: the concatenated decimal values of its pitches.
    pub fn gen_hash(&self) -> (hash: String)
        ensures
            hash@ == render_pitches(self.sequence@),
    {
        let mut hash = String::new();
        push_pitches(&mut hash, &self.sequence, 0, self.sequence.len());
        assert(self.sequence@.subrange(0, self.sequence@.len() as int) =~= self.sequence@);
        assert(hash@ =~= render_pitches(self.sequence@));
        hash
    }

    /// Size in bytes of the serialized file.
    pub fn gen_size(&self) -> (size: usize)
        ensures
            size == self.data@.len(),
    {
        self.data.len()
    }

    /// Name of the file inside an archive: `<hash>.mid`.
    pub fn gen_file_name(&self) -> (name: String)
        ensures
            name@ == file_name(self.sequence@),
    {
        let mut name = self.gen_hash();
        proof {
            reveal_strlit(".mid");
        }
        name.append(".mid");
        assert(name@ =~= file_name(self.sequence@));
        name
    }
}

} // verus!
