//! Framing of a PDF file: numbered objects recorded with their byte offsets, then the
//! cross-reference table, ordered by object number, and the trailer that point at them.
use vstd::prelude::*;
use vstd::utf8::encode_utf8;
use crate::text::{nat_digits, zero_padded_int, push_nat, push_str, push_repeat, digit_count};

verus! {

/// The file header: `%PDF-1.7`, then a comment of four high bytes marking the file as
/// binary.
pub open spec fn pdf_header_bytes() -> Seq<u8> {
    seq![
        0x25u8, 0x50u8, 0x44u8, 0x46u8, 0x2du8, 0x31u8, 0x2eu8, 0x37u8, 0x0au8, 0x25u8, 0xe2u8,
        0xe3u8, 0xcfu8, 0xd3u8, 0x0au8,
    ]
}

/// The offset recorded for object number `n`: that of the first object written with that
/// number, if any.
pub open spec fn offset_of(ids: Seq<u64>, offsets: Seq<usize>, n: int) -> Option<usize>
    decreases ids.len(),
{
    if ids.len() == 0 || offsets.len() == 0 {
        None
    } else if ids[0] == n {
        Some(offsets[0])
    } else {
        offset_of(ids.drop_first(), offsets.drop_first(), n)
    }
}

/// One cross-reference entry: the offset as ten zero-padded digits, generation 0, in use;
/// or a free entry for a number that no object has.
pub open spec fn xref_entry(off: Option<usize>) -> Seq<char> {
    match off {
        Some(o) => zero_padded_int(o as int, 10) + " 00000 n \n"@,
        None => "0000000000 65535 f \n"@,
    }
}

/// The cross-reference entries of objects `1..=count`, in order of their numbers.
pub open spec fn xref_entries(ids: Seq<u64>, offsets: Seq<usize>, count: nat) -> Seq<char>
    decreases count,
{
    if count == 0 {
        Seq::empty()
    } else {
        xref_entries(ids, offsets, (count - 1) as nat) + xref_entry(offset_of(ids, offsets, count as int))
    }
}

/// The cross-reference table (object 0 free, then objects `1..=count` for the `count`
/// objects written) and the trailer naming the catalog object and where the table starts.
pub open spec fn xref_text(ids: Seq<u64>, offsets: Seq<usize>, catalog_id: nat, xref_offset: nat) -> Seq<char> {
    "xref\n0 "@ + nat_digits(offsets.len() + 1) + "\n0000000000 65535 f \n"@
        + xref_entries(ids, offsets, offsets.len()) + "trailer\n<< /Size "@ + nat_digits(offsets.len() + 1)
        + " /Root "@ + nat_digits(catalog_id) + " 0 R >>\nstartxref\n"@ + nat_digits(xref_offset)
        + "\n%%EOF\n"@
}

/// An object as written: `<n> 0 obj`, its body, `endobj`.
pub open spec fn object_text(obj_id: nat, body: Seq<char>) -> Seq<char> {
    nat_digits(obj_id) + " 0 obj\n"@ + body + "\nendobj\n"@
}

/// The dictionary and stream start of an RGB image object.
pub open spec fn image_header_text(obj_id: nat, width: nat, height: nat, len: nat) -> Seq<char> {
    nat_digits(obj_id) + " 0 obj\n"@ + "<< /Type /XObject /Subtype /Image /Width "@ + nat_digits(width)
        + " /Height "@ + nat_digits(height)
        + " /ColorSpace /DeviceRGB /BitsPerComponent 8 /Length "@ + nat_digits(len)
        + " >>\nstream\n"@
}

/// The bytes that open object `obj_id`: `<n> 0 obj` and a line break.
pub open spec fn object_start(obj_id: nat) -> Seq<u8> {
    encode_utf8(nat_digits(obj_id) + " 0 obj\n"@)
}

/// `bytes` stand in `data` from position `at` on.
pub open spec fn bytes_at(data: Seq<u8>, at: int, bytes: Seq<u8>) -> bool {
    0 <= at && at + bytes.len() <= data.len() && data.subrange(at, at + bytes.len()) == bytes
}

/// The encoding of joined text is the joined encodings.
proof fn lemma_encode_concat(a: Seq<char>, b: Seq<char>)
    ensures
        encode_utf8(a + b) == encode_utf8(a) + encode_utf8(b),
    decreases a.len(),
{
    if a.len() == 0 {
        assert(a + b =~= b);
        assert(encode_utf8(a) + encode_utf8(b) =~= encode_utf8(b));
    } else {
        assert((a + b).drop_first() =~= a.drop_first() + b);
        assert((a + b)[0] == a[0]);
        lemma_encode_concat(a.drop_first(), b);
        assert(encode_utf8(a + b) =~= encode_utf8(a) + encode_utf8(b));
    }
}

/// Bytes found at a place stay there when more bytes are appended.
proof fn lemma_bytes_at_append(data: Seq<u8>, more: Seq<u8>, at: int, bytes: Seq<u8>)
    requires
        bytes_at(data, at, bytes),
    ensures
        bytes_at(data + more, at, bytes),
{
    assert((data + more).subrange(at, at + bytes.len()) =~= data.subrange(at, at + bytes.len()));
}

/// Where the first object numbered `n` was recorded.
proof fn lemma_offset_of_index(ids: Seq<u64>, offsets: Seq<usize>, n: int) -> (j: int)
    requires
        ids.len() == offsets.len(),
        offset_of(ids, offsets, n) is Some,
    ensures
        0 <= j < ids.len(),
        ids[j] == n,
        offset_of(ids, offsets, n) == Some(offsets[j]),
    decreases ids.len(),
{
    if ids[0] == n {
        0
    } else {
        let k = lemma_offset_of_index(ids.drop_first(), offsets.drop_first(), n);
        k + 1
    }
}

/// A PDF file being written: its bytes so far, and the number and offset of each object,
/// in the order they were written.
#[derive(Clone, Debug)]
pub struct PdfWriter {
    pub data: Vec<u8>,
    pub ids: Vec<u64>,
    pub offsets: Vec<usize>,
}

/// Appends bytes.
fn append_bytes(data: &mut Vec<u8>, bytes: &[u8])
    ensures
        final(data)@ == old(data)@ + bytes@,
{
    data.extend_from_slice(bytes);
    assert(final(data)@ =~= old(data)@ + bytes@);
}

/// Appends `n` zero-padded to at least `w` digits.
fn push_zero_padded(s: &mut String, n: u64, w: usize)
    ensures
        final(s)@ == old(s)@ + zero_padded_int(n as int, w as nat),
{
    let k = digit_count(n);
    let fill: usize = if k < w { w - k } else { 0 };
    push_repeat(s, '0', fill);
    push_nat(s, n);
    assert(final(s)@ =~= old(s)@ + zero_padded_int(n as int, w as nat));
}

impl PdfWriter {
    /// Every recorded object starts, at its recorded offset, with `<n> 0 obj` for its
    /// recorded number.
    pub open spec fn framed(&self) -> bool {
        &&& self.ids@.len() == self.offsets@.len()
        &&& forall|j: int|
            0 <= j < self.offsets@.len() ==> bytes_at(
                self.data@,
                #[trigger] self.offsets@[j] as int,
                object_start(self.ids@[j] as nat),
            )
    }

    /// A file holding just the header.
    pub fn new() -> (w: Self)
        ensures
            w.data@ == pdf_header_bytes(),
            w.ids@ == Seq::<u64>::empty(),
            w.offsets@ == Seq::<usize>::empty(),
            w.framed(),
    {
        let mut data: Vec<u8> = Vec::new();
        data.push(0x25);
        data.push(0x50);
        data.push(0x44);
        data.push(0x46);
        data.push(0x2d);
        data.push(0x31);
        data.push(0x2e);
        data.push(0x37);
        data.push(0x0a);
        data.push(0x25);
        data.push(0xe2);
        data.push(0xe3);
        data.push(0xcf);
        data.push(0xd3);
        data.push(0x0a);
        assert(data@ =~= pdf_header_bytes());
        PdfWriter { data, ids: Vec::new(), offsets: Vec::new() }
    }

    /// Writes object number `obj_id` with the given body, recording its offset.
    pub fn push_object(&mut self, obj_id: u64, body: &str)
        ensures
            final(self).ids@ == old(self).ids@.push(obj_id),
            final(self).offsets@ == old(self).offsets@.push(old(self).data@.len() as usize),
            final(self).data@ == old(self).data@ + encode_utf8(object_text(obj_id as nat, body@)),
            old(self).framed() ==> final(self).framed(),
    {
        let mut text = String::new();
        push_nat(&mut text, obj_id);
        push_str(&mut text, " 0 obj\n");
        push_str(&mut text, body);
        push_str(&mut text, "\nendobj\n");
        assert(text@ =~= object_text(obj_id as nat, body@));
        proof {
            let head = nat_digits(obj_id as nat) + " 0 obj\n"@;
            assert(text@ =~= head + (body@ + "\nendobj\n"@));
            lemma_encode_concat(head, body@ + "\nendobj\n"@);
            assert(encode_utf8(text@).subrange(0, object_start(obj_id as nat).len() as int)
                =~= object_start(obj_id as nat));
        }
        self.start_object(obj_id, text.as_str());
    }

    /// Records an object numbered `obj_id` starting here and writes `text`.
    fn start_object(&mut self, obj_id: u64, text: &str)
        requires
            encode_utf8(text@).subrange(0, object_start(obj_id as nat).len() as int) == object_start(obj_id as nat),
            object_start(obj_id as nat).len() <= encode_utf8(text@).len(),
        ensures
            final(self).ids@ == old(self).ids@.push(obj_id),
            final(self).offsets@ == old(self).offsets@.push(old(self).data@.len() as usize),
            final(self).data@ == old(self).data@ + encode_utf8(text@),
            old(self).framed() ==> final(self).framed(),
    {
        let at = self.data.len();
        self.ids.push(obj_id);
        self.offsets.push(at);
        let ghost before = self.data@;
        let tb = text.as_bytes();
        append_bytes(&mut self.data, tb);
        proof {
            let added = encode_utf8(text@);
            let start = object_start(obj_id as nat);
            assert(tb@ == added);
            assert(self.data@.subrange(at as int, at + start.len()) =~= added.subrange(0, start.len() as int));
            if old(self).framed() {
                assert forall|j: int| 0 <= j < self.offsets@.len() implies bytes_at(
                    self.data@,
                    #[trigger] self.offsets@[j] as int,
                    object_start(self.ids@[j] as nat),
                ) by {
                    if j < old(self).offsets@.len() {
                        assert(old(self).offsets@[j] == self.offsets@[j]);
                        assert(old(self).ids@[j] == self.ids@[j]);
                        lemma_bytes_at_append(before, added, self.offsets@[j] as int, object_start(self.ids@[j] as nat));
                    }
                }
            }
        }
    }

    /// Writes more bytes of the current object.
    pub fn push_bytes(&mut self, bytes: &[u8])
        ensures
            final(self).ids@ == old(self).ids@,
            final(self).offsets@ == old(self).offsets@,
            final(self).data@ == old(self).data@ + bytes@,
            old(self).framed() ==> final(self).framed(),
    {
        let ghost before = self.data@;
        append_bytes(&mut self.data, bytes);
        proof {
            if old(self).framed() {
                assert forall|j: int| 0 <= j < self.offsets@.len() implies bytes_at(
                    self.data@,
                    #[trigger] self.offsets@[j] as int,
                    object_start(self.ids@[j] as nat),
                ) by {
                    lemma_bytes_at_append(before, bytes@, self.offsets@[j] as int, object_start(self.ids@[j] as nat));
                }
            }
        }
    }

    /// Writes an RGB image object (`rgb` holds three bytes per pixel, row by row) with the
    /// given object number.
    pub fn push_image_object(&mut self, obj_id: u64, width: u64, height: u64, rgb: &[u8])
        ensures
            final(self).ids@ == old(self).ids@.push(obj_id),
            final(self).offsets@ == old(self).offsets@.push(old(self).data@.len() as usize),
            final(self).data@ == old(self).data@ + encode_utf8(
                image_header_text(obj_id as nat, width as nat, height as nat, rgb@.len()),
            ) + rgb@ + encode_utf8("\nendstream\nendobj\n"@),
            old(self).framed() ==> final(self).framed(),
    {
        let mut header = String::new();
        push_nat(&mut header, obj_id);
        push_str(&mut header, " 0 obj\n");
        let ghost head = header@;
        push_str(&mut header, "<< /Type /XObject /Subtype /Image /Width ");
        push_nat(&mut header, width);
        push_str(&mut header, " /Height ");
        push_nat(&mut header, height);
        push_str(&mut header, " /ColorSpace /DeviceRGB /BitsPerComponent 8 /Length ");
        push_nat(&mut header, rgb.len() as u64);
        push_str(&mut header, " >>\nstream\n");
        assert(header@ =~= image_header_text(obj_id as nat, width as nat, height as nat, rgb@.len()));
        proof {
            let rest = header@.skip(head.len() as int);
            assert(header@ =~= head + rest);
            lemma_encode_concat(head, rest);
            assert(encode_utf8(header@).subrange(0, object_start(obj_id as nat).len() as int)
                =~= object_start(obj_id as nat));
        }
        self.start_object(obj_id, header.as_str());
        self.push_bytes(rgb);
        let end = "\nendstream\nendobj\n";
        self.push_bytes(end.as_bytes());
    }

    /// The finished file: the bytes so far, then the cross-reference table, which gives
    /// for each object number from 1 to the count of objects written the offset of the
    /// object with that number, and the trailer naming `catalog_id` as the root.
    pub fn finish(self, catalog_id: u64) -> (bytes: Vec<u8>)
        requires
            self.ids.len() == self.offsets.len(),
            self.offsets.len() < u64::MAX,
        ensures
            bytes@ == self.data@ + encode_utf8(
                xref_text(self.ids@, self.offsets@, catalog_id as nat, self.data@.len()),
            ),
    {
        let xref_offset = self.data.len();
        let count = self.offsets.len() as u64;
        let total = count + 1;
        let mut t = String::new();
        push_str(&mut t, "xref\n0 ");
        push_nat(&mut t, total);
        push_str(&mut t, "\n0000000000 65535 f \n");
        let ghost head = t@;
        let mut n: u64 = 1;
        while n <= count
            invariant
                1 <= n <= count + 1,
                count == self.offsets@.len(),
                count < u64::MAX,
                self.ids@.len() == self.offsets@.len(),
                t@ == head + xref_entries(self.ids@, self.offsets@, (n - 1) as nat),
            decreases count + 1 - n,
        {
            let found = self.find_offset(n);
            match found {
                Some(off) => {
                    push_zero_padded(&mut t, off as u64, 10);
                    push_str(&mut t, " 00000 n \n");
                },
                None => {
                    push_str(&mut t, "0000000000 65535 f \n");
                },
            }
            assert(t@ =~= head + xref_entries(self.ids@, self.offsets@, n as nat));
            n = n + 1;
        }
        push_str(&mut t, "trailer\n<< /Size ");
        push_nat(&mut t, total);
        push_str(&mut t, " /Root ");
        push_nat(&mut t, catalog_id);
        push_str(&mut t, " 0 R >>\nstartxref\n");
        push_nat(&mut t, xref_offset as u64);
        push_str(&mut t, "\n%%EOF\n");
        assert(t@ =~= xref_text(self.ids@, self.offsets@, catalog_id as nat, self.data@.len()));
        let mut data = self.data;
        append_bytes(&mut data, t.as_str().as_bytes());
        data
    }

    /// The offset of the first object written with number `n`.
    fn find_offset(&self, n: u64) -> (r: Option<usize>)
        requires
            self.ids.len() == self.offsets.len(),
        ensures
            r == offset_of(self.ids@, self.offsets@, n as int),
    {
        let mut j: usize = 0;
        assert(self.ids@.skip(0) =~= self.ids@);
        assert(self.offsets@.skip(0) =~= self.offsets@);
        while j < self.ids.len()
            invariant
                j <= self.ids.len(),
                self.ids.len() == self.offsets.len(),
                offset_of(self.ids@, self.offsets@, n as int)
                    == offset_of(self.ids@.skip(j as int), self.offsets@.skip(j as int), n as int),
            decreases self.ids.len() - j,
        {
            assert(self.ids@.skip(j as int).drop_first() =~= self.ids@.skip(j as int + 1));
            assert(self.offsets@.skip(j as int).drop_first() =~= self.offsets@.skip(j as int + 1));
            if self.ids[j] == n {
                return Some(self.offsets[j]);
            }
            j = j + 1;
        }
        None
    }
}


/// The cross-reference table points each object number at that object: in a writer built
/// by its own methods, the offset recorded for number `n` is where `<n> 0 obj` begins, and
/// the finished file keeps those bytes in place.
pub proof fn lemma_xref_points_at_objects(w: PdfWriter, n: int, tail: Seq<u8>)
    requires
        w.framed(),
        offset_of(w.ids@, w.offsets@, n) is Some,
    ensures
        n >= 0,
        bytes_at(w.data@ + tail, offset_of(w.ids@, w.offsets@, n)->0 as int, object_start(n as nat)),
{
    let j = lemma_offset_of_index(w.ids@, w.offsets@, n);
    assert(bytes_at(w.data@, w.offsets@[j] as int, object_start(w.ids@[j] as nat)));
    lemma_bytes_at_append(w.data@, tail, w.offsets@[j] as int, object_start(n as nat));
}

} // verus!
