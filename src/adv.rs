//! Advertisement data: a list of records, each a length byte followed by
//! that many bytes (the first of them the record's type).
use vstd::prelude::*;
use vstd::slice::slice_subrange;

verus! {

/// Advertising flags: general discoverable, classic Bluetooth not supported.
pub const ADV_FLAGS_LE_ONLY_GENERAL_DISC_MODE: u8 = 0x06;

/// The records of `data` from position `pos` on, each without its length
/// byte; the list ends at the end of the data or at a record that does not
/// fit in it.
pub open spec fn records_from(data: Seq<u8>, pos: int) -> Seq<Seq<u8>>
    decreases data.len() - pos,
{
    if pos < 0 || pos >= data.len() {
        Seq::empty()
    } else {
        let len = data[pos] as int;
        if pos + len + 1 <= data.len() {
            seq![data.subrange(pos + 1, pos + len + 1)] + records_from(data, pos + len + 1)
        } else {
            Seq::empty()
        }
    }
}

/// The record that names the brain interface's data service: a complete
/// list of 128-bit service UUIDs holding edb74b42-8347-4285-a102-86f0b64c533c.
pub open spec fn service_record() -> Seq<u8> {
    seq![7u8, 0x3c, 0x53, 0x4c, 0xb6, 0xf0, 0x86, 0x02, 0xa1, 0x85, 0x42, 0x47, 0x83, 0x42, 0x4b, 0xb7, 0xed]
}

/// Iterator over the records of advertisement data.
pub struct AdvertisementDataIterator<'a> {
    data: &'a [u8],
    pos: usize,
}

impl<'a> AdvertisementDataIterator<'a> {
    /// The records not yet returned.
    pub closed spec fn remaining(&self) -> Seq<Seq<u8>> {
        records_from(self.data@, self.pos as int)
    }

    /// Iterator over the records of `data`.
    pub fn new(data: &'a [u8]) -> (r: Self)
        ensures
            r.remaining() == records_from(data@, 0),
    {
        Self { data, pos: 0 }
    }

    /// The next record, without its length byte.
    pub fn next(&mut self) -> (r: Option<&'a [u8]>)
        ensures
            old(self).remaining().len() == 0 ==> r is None && final(self).remaining().len() == 0,
            old(self).remaining().len() > 0 ==> r is Some && r->Some_0@ == old(self).remaining()[0]
                && final(self).remaining() == old(self).remaining().drop_first(),
    {
        if self.pos >= self.data.len() {
            return None;
        }
        let len = self.data[self.pos] as usize;
        if len < self.data.len() - self.pos {
            let r = slice_subrange(self.data, self.pos + 1, self.pos + len + 1);
            self.pos = self.pos + len + 1;
            proof {
                let d = old(self).data@;
                let p = old(self).pos as int;
                assert(records_from(d, p) == seq![d.subrange(p + 1, p + len + 1)] + records_from(d, p + len + 1));
                assert(records_from(d, p).drop_first() =~= records_from(d, p + len + 1));
            }
            Some(r)
        } else {
            None
        }
    }
}

/// The advertisement data of one report.
pub struct AdvertisementData<'a> {
    data: &'a [u8],
}

impl<'a> AdvertisementData<'a> {
    pub closed spec fn bytes(&self) -> Seq<u8> {
        self.data@
    }

    /// Advertisement data held in `data`.
    pub fn new(data: &'a [u8]) -> (r: Self)
        ensures
            r.bytes() == data@,
    {
        Self { data }
    }

    /// An iterator over the records, without moving out.
    pub fn iter(&self) -> (r: AdvertisementDataIterator<'a>)
        ensures
            r.remaining() == records_from(self.bytes(), 0),
    {
        AdvertisementDataIterator::new(self.data)
    }
}

/// The service record as bytes.
pub fn service_list() -> (r: Vec<u8>)
    ensures
        r@ == service_record(),
{
    let r = vec![7u8, 0x3c, 0x53, 0x4c, 0xb6, 0xf0, 0x86, 0x02, 0xa1, 0x85, 0x42, 0x47, 0x83, 0x42, 0x4b, 0xb7, 0xed];
    assert(r@ =~= service_record());
    r
}

/// The advertisement of the brain interface: the flags record, then the
/// service record.
pub fn advertisement_data() -> (r: Vec<u8>)
    ensures
        records_from(r@, 0) == seq![seq![1u8, ADV_FLAGS_LE_ONLY_GENERAL_DISC_MODE], service_record()],
{
    let mut r = vec![2u8, 1, ADV_FLAGS_LE_ONLY_GENERAL_DISC_MODE, 17];
    let s = service_list();
    let mut i: usize = 0;
    while i < s.len()
        invariant
            i <= s@.len(),
            s@ == service_record(),
            r@ == seq![2u8, 1, ADV_FLAGS_LE_ONLY_GENERAL_DISC_MODE, 17] + s@.take(i as int),
        decreases s@.len() - i,
    {
        r.push(s[i]);
        i = i + 1;
        assert(r@ =~= seq![2u8, 1, ADV_FLAGS_LE_ONLY_GENERAL_DISC_MODE, 17] + s@.take(i as int));
    }
    proof {
        let d = r@;
        assert(d.len() == 21);
        assert(d.subrange(1, 3) =~= seq![1u8, ADV_FLAGS_LE_ONLY_GENERAL_DISC_MODE]);
        assert(d.subrange(4, 21) =~= service_record());
        assert(records_from(d, 21) == Seq::<Seq<u8>>::empty());
        assert(records_from(d, 3) =~= seq![service_record()]);
        assert(records_from(d, 0) =~= seq![seq![1u8, ADV_FLAGS_LE_ONLY_GENERAL_DISC_MODE], service_record()]);
    }
    r
}

/// Whether advertisement data `data` names the brain interface's data
/// service in one of its records.
pub fn supports_data_service(data: &[u8]) -> (r: bool)
    ensures
        r == exists|i: int| 0 <= i < records_from(data@, 0).len() && #[trigger] records_from(data@, 0)[i] == service_record(),
{
    let list = service_list();
    let adv = AdvertisementData::new(data);
    let mut it = adv.iter();
    let ghost all = records_from(data@, 0);
    let ghost mut k: int = 0;
    loop
        invariant
            list@ == service_record(),
            all == records_from(data@, 0),
            0 <= k <= all.len(),
            it.remaining() == all.skip(k),
            forall|j: int| 0 <= j < k ==> #[trigger] all[j] != service_record(),
        decreases all.len() - k,
    {
        match it.next() {
            None => {
                assert(all.skip(k).len() == 0);
                assert(k == all.len());
                return false;
            },
            Some(d) => {
                proof {
                    assert(all.skip(k)[0] == all[k]);
                    assert(all.skip(k).drop_first() =~= all.skip(k + 1));
                }
                if bytes_equal(d, list.as_slice()) {
                    assert(all[k] == service_record());
                    return true;
                }
                proof {
                    k = k + 1;
                }
            },
        }
    }
}

/// Whether `a` and `b` hold the same bytes.
fn bytes_equal(a: &[u8], b: &[u8]) -> (r: bool)
    ensures
        r == (a@ == b@),
{
    if a.len() != b.len() {
        return false;
    }
    let mut i: usize = 0;
    while i < a.len()
        invariant
            a@.len() == b@.len(),
            i <= a@.len(),
            forall|j: int| 0 <= j < i ==> a@[j] == b@[j],
        decreases a@.len() - i,
    {
        if a[i] != b[i] {
            return false;
        }
        i = i + 1;
    }
    assert(a@ =~= b@);
    true
}

} // verus!
