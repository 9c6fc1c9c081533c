//! Service-discovery messages: flags, entries and options.
use vstd::prelude::*;
use crate::error::{Result, SomeIpError};
use crate::header::{
    be_u16_at, be_u16_bytes, be_u32_at, be_u32_bytes, push_be_u32, read_be_u32, MethodId, ServiceId,
};
use crate::message::SomeIpMessage;
use crate::sd::entry::{EventgroupEntry, SdEntry, ServiceEntry};
use crate::sd::option::{
    endpoint_of, option_bytes, option_parts, parse_option, parse_option_data, valid_option, Endpoint,
    IPv4EndpointOption, IPv6EndpointOption, SdOption, SdOptionView,
};
use crate::sd::types::{
    EntryType, EventgroupId, InstanceId, TransportProtocol, SD_ENTRY_SIZE, SD_METHOD_ID, SD_SERVICE_ID,
};

verus! {

/// SD message flags.
#[derive(Debug, Clone, Copy, PartialEq, Eq, Default, Structural)]
pub struct SdFlags {
    /// Set when the sender has rebooted.
    pub reboot: bool,
    /// Set when the message may be answered by unicast.
    pub unicast: bool,
    /// Explicit initial data control.
    pub explicit_initial_data: bool,
}

impl SdFlags {
    /// The flags byte: bit 7 reboot, bit 6 unicast, bit 5 explicit initial data.
    pub open spec fn code(self) -> u8 {
        ((if self.reboot { 0x80int } else { 0 }) + (if self.unicast { 0x40int } else { 0 }) + (
        if self.explicit_initial_data { 0x20int } else { 0 })) as u8
    }

    /// The flags that byte `b` carries.
    pub open spec fn spec_from_code(b: u8) -> SdFlags {
        SdFlags { reboot: b / 128 == 1, unicast: (b / 64) % 2 == 1, explicit_initial_data: (b / 32) % 2 == 1 }
    }

    /// Decode the flags byte.
    pub fn from_u8(byte: u8) -> (r: SdFlags)
        ensures
            r == Self::spec_from_code(byte),
    {
        SdFlags { reboot: byte / 128 == 1, unicast: (byte / 64) % 2 == 1, explicit_initial_data: (byte / 32) % 2 == 1 }
    }

    /// Encode the flags byte.
    pub fn to_u8(&self) -> (r: u8)
        ensures
            r == self.code(),
            Self::spec_from_code(r) == *self,
    {
        let mut byte: u8 = 0;
        if self.reboot {
            byte = byte + 0x80;
        }
        if self.unicast {
            byte = byte + 0x40;
        }
        if self.explicit_initial_data {
            byte = byte + 0x20;
        }
        byte
    }
}

/// A service-discovery message.
#[derive(Debug, Clone, PartialEq, Eq)]
pub struct SdMessage {
    /// Message flags.
    pub flags: SdFlags,
    /// Entries.
    pub entries: Vec<SdEntry>,
    /// Options.
    pub options: Vec<SdOption>,
}

/// What an SD message holds.
pub type SdMessageView = (SdFlags, Seq<SdEntry>, Seq<SdOptionView>);

impl View for SdMessage {
    type V = SdMessageView;

    open spec fn view(&self) -> SdMessageView {
        (self.flags, self.entries@, self.options@.map_values(|o: SdOption| o@))
    }
}

/// The wire bytes of entries, in order.
pub open spec fn entries_bytes(es: Seq<SdEntry>) -> Seq<u8>
    decreases es.len(),
{
    if es.len() == 0 {
        Seq::empty()
    } else {
        es[0].spec_bytes() + entries_bytes(es.drop_first())
    }
}

/// The wire bytes of options, in order.
pub open spec fn options_bytes(os: Seq<SdOptionView>) -> Seq<u8>
    decreases os.len(),
{
    if os.len() == 0 {
        Seq::empty()
    } else {
        option_bytes(os[0]) + options_bytes(os.drop_first())
    }
}

/// The wire bytes of an SD message: flags, three reserved bytes, the entries'
/// length and bytes, the options' length and bytes.
pub open spec fn sd_bytes(m: SdMessageView) -> Seq<u8> {
    seq![m.0.code(), 0u8, 0u8, 0u8] + be_u32_bytes((m.1.len() * 16) as u32) + entries_bytes(m.1) + be_u32_bytes(
        options_bytes(m.2).len() as u32,
    ) + options_bytes(m.2)
}

/// An SD message fits its wire format.
pub open spec fn valid_sd(m: SdMessageView) -> bool {
    &&& forall|i: int| 0 <= i < m.1.len() ==> (#[trigger] m.1[i]).valid()
    &&& forall|i: int| 0 <= i < m.2.len() ==> valid_option(#[trigger] m.2[i])
    &&& encodable_sd(m)
}

/// An SD message can be encoded: its lengths fit their wire fields (each
/// option's data in 16 bits, the entries' and the options' lengths in 32).
pub open spec fn encodable_sd(m: SdMessageView) -> bool {
    &&& forall|i: int| 0 <= i < m.2.len() ==> (#[trigger] option_parts(m.2[i])).1.len() <= 0xFFFF
    &&& m.1.len() * 16 <= u32::MAX
    &&& options_bytes(m.2).len() <= u32::MAX
}

/// The entries in a region of 16-byte slots: entries of an unknown type are
/// skipped, and a trailing partial slot is ignored.
pub open spec fn parse_entries(b: Seq<u8>) -> Seq<SdEntry>
    decreases b.len(),
{
    if b.len() < SD_ENTRY_SIZE {
        Seq::empty()
    } else {
        let rest = parse_entries(b.subrange(16, b.len() as int));
        match SdEntry::spec_decode(b) {
            Some(e) => seq![e] + rest,
            None => rest,
        }
    }
}

/// The options decoded from `d` while fewer than `limit` bytes were consumed;
/// `None` stands for an invalid-header error.
pub open spec fn parse_options(d: Seq<u8>, limit: int) -> Option<Result<Seq<SdOptionView>>>
    decreases d.len(),
{
    if limit <= 0 {
        Some(Ok(Seq::empty()))
    } else if d.len() < 4 {
        Some(Err(SomeIpError::MessageTooShort { expected: 4, actual: d.len() as usize }))
    } else {
        let total: int = 4 + be_u16_at(d, 0) as int;
        if d.len() < total {
            Some(Err(SomeIpError::MessageTooShort { expected: total as usize, actual: d.len() as usize }))
        } else {
            match parse_option_data(d[2], d.subrange(4, total)) {
                None => None,
                Some(Err(e)) => Some(Err(e)),
                Some(Ok(o)) => match parse_options(d.subrange(total, d.len() as int), limit - total) {
                    Some(Ok(os)) => Some(Ok(seq![o] + os)),
                    other => other,
                },
            }
        }
    }
}

proof fn lemma_parse_options_step(d: Seq<u8>, limit: int)
    requires
        limit > 0,
    ensures
        parse_options(d, limit) == match parse_option(d) {
            None => None,
            Some(Err(e)) => Some(Err(e)),
            Some(Ok((o, n))) => match parse_options(d.subrange(n, d.len() as int), limit - n) {
                Some(Ok(os)) => Some(Ok::<Seq<SdOptionView>, SomeIpError>(seq![o] + os)),
                other => other,
            },
        },
        parse_option(d) matches Some(Ok((o, n))) ==> 4 <= n <= d.len(),
{
}

/// `a + b`, or the largest `usize` when that does not fit.
pub open spec fn saturating(a: int, b: int) -> usize {
    if a + b <= usize::MAX {
        (a + b) as usize
    } else {
        usize::MAX
    }
}

/// The outcome of decoding an SD message from `b`; `None` stands for an
/// invalid-header error.
pub open spec fn parse_sd(b: Seq<u8>) -> Option<Result<SdMessageView>> {
    if b.len() < 12 {
        Some(Err(SomeIpError::MessageTooShort { expected: 12, actual: b.len() as usize }))
    } else {
        let el = be_u32_at(b, 4) as int;
        if b.len() < 12 + el {
            Some(Err(SomeIpError::MessageTooShort { expected: saturating(el, 12), actual: b.len() as usize }))
        } else {
            let entries = parse_entries(b.subrange(8, 8 + el));
            let ol = be_u32_at(b, 8 + el) as int;
            let od = b.subrange(12 + el, b.len() as int);
            if od.len() < ol {
                Some(Err(SomeIpError::MessageTooShort { expected: ol as usize, actual: od.len() as usize }))
            } else {
                match parse_options(od, ol) {
                    Some(Ok(os)) => Some(Ok((SdFlags::spec_from_code(b[0]), entries, os))),
                    Some(Err(e)) => Some(Err(e)),
                    None => None,
                }
            }
        }
    }
}

/// A decoded SD message, seen through its view.
pub open spec fn sd_result_view(r: Result<SdMessage>) -> Result<SdMessageView> {
    match r {
        Ok(m) => Ok(m@),
        Err(e) => Err(e),
    }
}

/// The options of run `(idx, n)` of `os`: empty when the run is empty or
/// reaches past the end.
pub open spec fn option_run<T>(os: Seq<T>, idx: int, n: int) -> Seq<T> {
    if n == 0 || idx + n > os.len() {
        Seq::empty()
    } else {
        os.subrange(idx, idx + n)
    }
}

/// The option-run references of an entry.
pub open spec fn runs_of(e: SdEntry) -> (int, int, int, int) {
    match e {
        SdEntry::Service(x) => (
            x.index_first_option as int,
            x.num_options_1 as int,
            x.index_second_option as int,
            x.num_options_2 as int,
        ),
        SdEntry::Eventgroup(x) => (
            x.index_first_option as int,
            x.num_options_1 as int,
            x.index_second_option as int,
            x.num_options_2 as int,
        ),
    }
}

/// The options an entry references: its two runs in order; when either run
/// reaches past the end of `os`, none.
pub open spec fn options_for<T>(os: Seq<T>, e: SdEntry) -> Seq<T> {
    let (i1, n1, i2, n2) = runs_of(e);
    if i1 + n1 > os.len() || i2 + n2 > os.len() {
        Seq::empty()
    } else {
        option_run(os, i1, n1) + option_run(os, i2, n2)
    }
}

/// The endpoints among `os`, in order.
pub open spec fn endpoints_in(os: Seq<SdOptionView>) -> Seq<Endpoint>
    decreases os.len(),
{
    if os.len() == 0 {
        Seq::empty()
    } else {
        let rest = endpoints_in(os.drop_last());
        match endpoint_of(os.last()) {
            Some(ep) => rest.push(ep),
            None => rest,
        }
    }
}

proof fn lemma_entries_bytes_append(a: Seq<SdEntry>, b: Seq<SdEntry>)
    ensures
        entries_bytes(a + b) == entries_bytes(a) + entries_bytes(b),
    decreases a.len(),
{
    if a.len() == 0 {
        assert(a + b =~= b);
        assert(Seq::<u8>::empty() + entries_bytes(b) =~= entries_bytes(b));
    } else {
        assert((a + b).drop_first() =~= a.drop_first() + b);
        lemma_entries_bytes_append(a.drop_first(), b);
        assert(a[0].spec_bytes() + (entries_bytes(a.drop_first()) + entries_bytes(b)) =~= (a[0].spec_bytes()
            + entries_bytes(a.drop_first())) + entries_bytes(b));
    }
}

proof fn lemma_options_bytes_append(a: Seq<SdOptionView>, b: Seq<SdOptionView>)
    ensures
        options_bytes(a + b) == options_bytes(a) + options_bytes(b),
    decreases a.len(),
{
    if a.len() == 0 {
        assert(a + b =~= b);
        assert(Seq::<u8>::empty() + options_bytes(b) =~= options_bytes(b));
    } else {
        assert((a + b).drop_first() =~= a.drop_first() + b);
        lemma_options_bytes_append(a.drop_first(), b);
        assert(option_bytes(a[0]) + (options_bytes(a.drop_first()) + options_bytes(b)) =~= (option_bytes(a[0])
            + options_bytes(a.drop_first())) + options_bytes(b));
    }
}

proof fn lemma_entries_bytes_snoc(s: Seq<SdEntry>, i: int)
    requires
        0 <= i < s.len(),
    ensures
        entries_bytes(s.subrange(0, i + 1)) == entries_bytes(s.subrange(0, i)) + s[i].spec_bytes(),
{
    assert(s.subrange(0, i + 1) =~= s.subrange(0, i) + seq![s[i]]);
    lemma_entries_bytes_append(s.subrange(0, i), seq![s[i]]);
    assert(seq![s[i]].drop_first() =~= Seq::<SdEntry>::empty());
    assert(entries_bytes(Seq::<SdEntry>::empty()) == Seq::<u8>::empty());
    assert(entries_bytes(seq![s[i]]) == s[i].spec_bytes() + entries_bytes(seq![s[i]].drop_first()));
    assert(s[i].spec_bytes() + Seq::<u8>::empty() =~= s[i].spec_bytes());
}

proof fn lemma_options_bytes_prefix_len(s: Seq<SdOptionView>, i: int, k: int)
    requires
        0 <= i <= k <= s.len(),
    ensures
        options_bytes(s.subrange(0, i)).len() <= options_bytes(s.subrange(0, k)).len(),
    decreases k - i,
{
    if i < k {
        lemma_options_bytes_prefix_len(s, i, k - 1);
        lemma_options_bytes_snoc(s, k - 1);
    }
}

proof fn lemma_options_bytes_snoc(s: Seq<SdOptionView>, i: int)
    requires
        0 <= i < s.len(),
    ensures
        options_bytes(s.subrange(0, i + 1)) == options_bytes(s.subrange(0, i)) + option_bytes(s[i]),
{
    assert(s.subrange(0, i + 1) =~= s.subrange(0, i) + seq![s[i]]);
    lemma_options_bytes_append(s.subrange(0, i), seq![s[i]]);
    assert(seq![s[i]].drop_first() =~= Seq::<SdOptionView>::empty());
    assert(options_bytes(Seq::<SdOptionView>::empty()) == Seq::<u8>::empty());
    assert(options_bytes(seq![s[i]]) == option_bytes(s[i]) + options_bytes(seq![s[i]].drop_first()));
    assert(option_bytes(s[i]) + Seq::<u8>::empty() =~= option_bytes(s[i]));
}

impl SdMessage {

    /// Decode an SD message (the payload of a SOME/IP message). Entries of an
    /// unknown type are skipped; an option that fails to decode fails the
    /// message, except that options of unknown type are kept as they are.
    pub fn from_bytes(data: &[u8]) -> (r: Result<SdMessage>)
        ensures
            match parse_sd(data@) {
                Some(x) => sd_result_view(r) == x,
                None => r matches Err(SomeIpError::InvalidHeader(_)),
            },
    {
        if data.len() < 12 {
            return Err(SomeIpError::MessageTooShort { expected: 12, actual: data.len() });
        }
        let flags = SdFlags::from_u8(data[0]);
        let entries_length = read_be_u32(data, 4) as usize;
        if data.len() - 12 < entries_length {
            let expected = if entries_length <= usize::MAX - 12 { entries_length + 12 } else { usize::MAX };
            return Err(SomeIpError::MessageTooShort { expected, actual: data.len() });
        }
        let entries_data = vstd::slice::slice_subrange(data, 8, 8 + entries_length);
        let ghost ed = entries_data@;
        let mut entries: Vec<SdEntry> = Vec::new();
        let mut offset: usize = 0;
        assert(ed.subrange(0, ed.len() as int) =~= ed);
        assert(entries@ =~= Seq::<SdEntry>::empty());
        assert(entries@ + parse_entries(ed) =~= parse_entries(ed));
        while entries_length - offset >= SD_ENTRY_SIZE
            invariant
                entries_data@ == ed,
                ed.len() == entries_length,
                offset <= entries_length,
                entries@ + parse_entries(ed.subrange(offset as int, ed.len() as int)) == parse_entries(ed),
            decreases entries_length - offset,
        {
            let ghost rest = ed.subrange(offset as int, ed.len() as int);
            let slot = vstd::slice::slice_subrange(entries_data, offset, entries_length);
            assert(slot@ == rest);
            assert(rest.subrange(16, rest.len() as int) =~= ed.subrange(offset + 16, ed.len() as int));
            let ghost next = parse_entries(ed.subrange(offset + 16, ed.len() as int));
            match SdEntry::from_bytes(slot) {
                Ok(e) => {
                    let ghost before = entries@;
                    entries.push(e);
                    assert(entries@ + next =~= before + (seq![e] + next));
                },
                Err(_) => {},
            }
            offset = offset + SD_ENTRY_SIZE;
        }
        assert(entries@ + parse_entries(ed.subrange(offset as int, ed.len() as int)) =~= entries@);
        assert(ed == data@.subrange(8, 8 + entries_length));
        let options_offset = 8 + entries_length;
        let options_length = read_be_u32(data, options_offset) as usize;
        let options_data = vstd::slice::slice_subrange(data, options_offset + 4, data.len());
        if options_data.len() < options_length {
            return Err(SomeIpError::MessageTooShort { expected: options_length, actual: options_data.len() });
        }
        let ghost od = options_data@;
        let mut options: Vec<SdOption> = Vec::new();
        let mut opt_offset: usize = 0;
        proof {
            assert(od.subrange(0, od.len() as int) =~= od);
            assert(options@.map_values(|o: SdOption| o@) =~= Seq::<SdOptionView>::empty());
            match parse_options(od, options_length as int) {
                Some(Ok(os)) => {
                    assert(Seq::<SdOptionView>::empty() + os =~= os);
                },
                _ => {},
            }
        }
        while opt_offset < options_length
            invariant
                options_data@ == od,
                data@.len() >= 12 + entries_length,
                entries_length == be_u32_at(data@, 4),
                options_length == be_u32_at(data@, 8 + entries_length),
                od == data@.subrange(12 + entries_length, data@.len() as int),
                entries@ == parse_entries(data@.subrange(8, 8 + entries_length)),
                flags == SdFlags::spec_from_code(data@[0]),
                od.len() >= options_length,
                opt_offset <= od.len(),
                parse_options(od, options_length as int) == match parse_options(
                    od.subrange(opt_offset as int, od.len() as int),
                    options_length - opt_offset,
                ) {
                    Some(Ok(os)) => Some(Ok::<Seq<SdOptionView>, SomeIpError>(options@.map_values(|o: SdOption| o@) + os)),
                    other => other,
                },
            decreases od.len() - opt_offset,
        {
            let rest = vstd::slice::slice_subrange(options_data, opt_offset, options_data.len());
            let ghost before = options@.map_values(|o: SdOption| o@);
            proof {
                assert(rest@ =~= od.subrange(opt_offset as int, od.len() as int));
                lemma_parse_options_step(rest@, options_length - opt_offset);
            }
            let (option, size) = match SdOption::from_bytes(rest) {
                Ok(x) => x,
                Err(e) => {
                    proof {
                        let lim = options_length - opt_offset;
                        match parse_option(rest@) {
                            Some(x) => {
                                assert(x == Err::<(SdOptionView, int), SomeIpError>(e));
                                assert(parse_options(rest@, lim as int) == Some(Err::<Seq<SdOptionView>, SomeIpError>(e)));
                                assert(parse_options(od, options_length as int) == Some(Err::<Seq<SdOptionView>, SomeIpError>(e)));
                            },
                            None => {
                                assert(parse_options(od, options_length as int) is None);
                            },
                        }
                    }
                    return Err(e);
                },
            };
            proof {
                assert(rest@.subrange(size as int, rest@.len() as int) =~= od.subrange(opt_offset + size, od.len() as int));
                assert(before.push(option@) =~= options@.push(option).map_values(|o: SdOption| o@));
                match parse_options(od.subrange(opt_offset + size, od.len() as int), options_length - opt_offset - size) {
                    Some(Ok(os)) => {
                        assert(before + (seq![option@] + os) =~= before.push(option@) + os);
                    },
                    _ => {},
                }
            }
            options.push(option);
            opt_offset = opt_offset + size;
        }
        proof {
            assert(options@.map_values(|o: SdOption| o@) + Seq::<SdOptionView>::empty() =~= options@.map_values(|o: SdOption| o@));
        }
        Ok(SdMessage { flags, entries, options })
    }


    /// Encode this SD message; the two length fields are computed. Entry
    /// fields wider than their wire fields keep their low bits.
    pub fn to_bytes(&self) -> (r: Vec<u8>)
        requires
            encodable_sd(self@),
        ensures
            r@ == sd_bytes(self@),
    {
        let ghost m = self@;
        let mut buf: Vec<u8> = Vec::new();
        buf.push(self.flags.to_u8());
        buf.push(0);
        buf.push(0);
        buf.push(0);
        push_be_u32(&mut buf, (self.entries.len() * 16) as u32);
        let ghost prefix = buf@;
        let mut i: usize = 0;
        assert(m.1.subrange(0, 0) =~= Seq::<SdEntry>::empty());
        while i < self.entries.len()
            invariant
                m == self@,
                0 <= i <= m.1.len(),
                buf@ == prefix + entries_bytes(m.1.subrange(0, i as int)),
            decreases m.1.len() - i,
        {
            proof {
                lemma_entries_bytes_snoc(m.1, i as int);
            }
            self.entries[i].write_to(&mut buf);
            assert(buf@ =~= prefix + entries_bytes(m.1.subrange(0, i + 1)));
            i = i + 1;
        }
        assert(m.1.subrange(0, m.1.len() as int) =~= m.1);
        let mut ob: Vec<u8> = Vec::new();
        let mut j: usize = 0;
        assert(m.2.subrange(0, 0) =~= Seq::<SdOptionView>::empty());
        while j < self.options.len()
            invariant
                m == self@,
                encodable_sd(m),
                0 <= j <= m.2.len(),
                ob@ == options_bytes(m.2.subrange(0, j as int)),
            decreases m.2.len() - j,
        {
            proof {
                lemma_options_bytes_snoc(m.2, j as int);
                assert(option_parts(m.2[j as int]).1.len() <= 0xFFFF);
                assert(m.2[j as int] == self.options@[j as int]@);
            }
            self.options[j].write_to(&mut ob);
            j = j + 1;
        }
        assert(m.2.subrange(0, m.2.len() as int) =~= m.2);
        push_be_u32(&mut buf, ob.len() as u32);
        buf.extend_from_slice(ob.as_slice());
        assert(buf@ =~= sd_bytes(m));
        buf
    }

    /// Whether this message can be encoded (see `encodable_sd`).
    pub fn is_encodable(&self) -> (r: bool)
        ensures
            r == encodable_sd(self@),
    {
        let ghost m = self@;
        if self.entries.len() > 0x0FFF_FFFF {
            return false;
        }
        let mut total: u64 = 0;
        let mut j: usize = 0;
        assert(m.2.subrange(0, 0) =~= Seq::<SdOptionView>::empty());
        while j < self.options.len()
            invariant
                0 <= j <= m.2.len(),
                m == self@,
                forall|k: int| 0 <= k < j ==> (#[trigger] option_parts(m.2[k])).1.len() <= 0xFFFF,
                total == options_bytes(m.2.subrange(0, j as int)).len(),
                total <= u32::MAX,
            decreases m.2.len() - j,
        {
            proof {
                lemma_options_bytes_snoc(m.2, j as int);
                assert(m.2[j as int] == self.options@[j as int]@);
            }
            let len = self.options[j].data_len();
            if len > 0xFFFF {
                return false;
            }
            let add = 4 + len as u64;
            if total + add > 0xFFFF_FFFF {
                proof {
                    lemma_options_bytes_prefix_len(m.2, j as int + 1, m.2.len() as int);
                    assert(m.2.subrange(0, m.2.len() as int) =~= m.2);
                }
                return false;
            }
            total = total + add;
            j = j + 1;
        }
        assert(m.2.subrange(0, m.2.len() as int) =~= m.2);
        true
    }

    /// Decode an SD message from a SOME/IP message, which must carry the SD
    /// service and method IDs.
    pub fn from_someip_message(msg: &SomeIpMessage) -> (r: Result<SdMessage>)
        ensures
            msg.header.service_id.0 != SD_SERVICE_ID ==> r matches Err(SomeIpError::InvalidHeader(_)),
            msg.header.service_id.0 == SD_SERVICE_ID && msg.header.method_id.0 != SD_METHOD_ID ==> r matches Err(
                SomeIpError::InvalidHeader(_),
            ),
            msg.header.service_id.0 == SD_SERVICE_ID && msg.header.method_id.0 == SD_METHOD_ID ==> match parse_sd(msg.payload@) {
                Some(x) => sd_result_view(r) == x,
                None => r matches Err(SomeIpError::InvalidHeader(_)),
            },
    {
        if msg.header.service_id.0 != SD_SERVICE_ID {
            return Err(SomeIpError::invalid_header("Expected SD service ID"));
        }
        if msg.header.method_id.0 != SD_METHOD_ID {
            return Err(SomeIpError::invalid_header("Expected SD method ID"));
        }
        Self::from_bytes(msg.payload.as_slice())
    }

    /// Wrap this SD message in a SOME/IP notification to the SD service and method.
    pub fn to_someip_message(&self) -> (r: SomeIpMessage)
        requires
            encodable_sd(self@),
            sd_bytes(self@).len() + 8 <= u32::MAX,
        ensures
            r.header == crate::message::MessageBuilder::notification_header(
                ServiceId(SD_SERVICE_ID),
                MethodId(SD_METHOD_ID),
                sd_bytes(self@).len() as int,
            ),
            r.payload@ == sd_bytes(self@),
    {
        let payload = self.to_bytes();
        SomeIpMessage::notification(ServiceId(SD_SERVICE_ID), MethodId(SD_METHOD_ID)).payload(payload).build()
    }

    /// Whether some entry is a find entry.
    pub fn is_find_service(&self) -> (r: bool)
        ensures
            r == exists|i: int| 0 <= i < self.entries@.len() && (#[trigger] self.entries@[i] matches SdEntry::Service(e) && e.entry_type == EntryType::FindService),
    {
        let mut i: usize = 0;
        while i < self.entries.len()
            invariant
                0 <= i <= self.entries@.len(),
                forall|j: int| 0 <= j < i ==> !(#[trigger] self.entries@[j] matches SdEntry::Service(e) && e.entry_type == EntryType::FindService),
            decreases self.entries@.len() - i,
        {
            match &self.entries[i] {
                SdEntry::Service(e) => if e.entry_type == EntryType::FindService {
                    return true;
                },
                _ => {},
            }
            i = i + 1;
        }
        false
    }

    /// Whether some entry is an offer with a positive TTL.
    pub fn is_offer_service(&self) -> (r: bool)
        ensures
            r == exists|i: int| 0 <= i < self.entries@.len() && (#[trigger] self.entries@[i] matches SdEntry::Service(e) && e.entry_type == EntryType::OfferService && e.ttl > 0),
    {
        let mut i: usize = 0;
        while i < self.entries.len()
            invariant
                0 <= i <= self.entries@.len(),
                forall|j: int| 0 <= j < i ==> !(#[trigger] self.entries@[j] matches SdEntry::Service(e) && e.entry_type == EntryType::OfferService && e.ttl > 0),
            decreases self.entries@.len() - i,
        {
            match &self.entries[i] {
                SdEntry::Service(e) => if e.entry_type == EntryType::OfferService && e.ttl > 0 {
                    return true;
                },
                _ => {},
            }
            i = i + 1;
        }
        false
    }

    /// Whether some entry is a stop offer (an offer with TTL 0).
    pub fn is_stop_offer_service(&self) -> (r: bool)
        ensures
            r == exists|i: int| 0 <= i < self.entries@.len() && (#[trigger] self.entries@[i] matches SdEntry::Service(e) && e.entry_type == EntryType::OfferService && e.ttl == 0),
    {
        let mut i: usize = 0;
        while i < self.entries.len()
            invariant
                0 <= i <= self.entries@.len(),
                forall|j: int| 0 <= j < i ==> !(#[trigger] self.entries@[j] matches SdEntry::Service(e) && e.entry_type == EntryType::OfferService && e.ttl == 0),
            decreases self.entries@.len() - i,
        {
            match &self.entries[i] {
                SdEntry::Service(e) => if e.entry_type == EntryType::OfferService && e.ttl == 0 {
                    return true;
                },
                _ => {},
            }
            i = i + 1;
        }
        false
    }

    /// The options `entry` references: its first run, then its second; none
    /// when either run reaches past the end of the options.
    pub fn get_options_for_entry(&self, entry: &SdEntry) -> (r: Vec<&SdOption>)
        ensures
            r@.map_values(|o: &SdOption| o@) == options_for(self@.2, *entry),
    {
        let (index1, num1, index2, num2): (usize, usize, usize, usize) = match entry {
            SdEntry::Service(e) => (
                e.index_first_option as usize,
                e.num_options_1 as usize,
                e.index_second_option as usize,
                e.num_options_2 as usize,
            ),
            SdEntry::Eventgroup(e) => (
                e.index_first_option as usize,
                e.num_options_1 as usize,
                e.index_second_option as usize,
                e.num_options_2 as usize,
            ),
        };
        let ghost os = self@.2;
        let mut options: Vec<&SdOption> = Vec::new();
        let n = self.options.len();
        if index1 + num1 > n || index2 + num2 > n {
            assert(options@.map_values(|o: &SdOption| o@) =~= Seq::<SdOptionView>::empty());
            return options;
        }
        let mut i: usize = index1;
        while i < index1 + num1
            invariant
                index1 <= i <= index1 + num1 <= n,
                n == self.options@.len(),
                os == self@.2,
                options@.map_values(|o: &SdOption| o@) == os.subrange(index1 as int, i as int),
            decreases index1 + num1 - i,
        {
            let o: &SdOption = &self.options[i];
            let ghost before = options@;
            options.push(o);
            proof {
                assert(o@ == os[i as int]);
                assert(options@ == before.push(o));
                assert(options@.map_values(|o: &SdOption| o@) =~= before.map_values(|o: &SdOption| o@).push(o@));
                assert(options@.map_values(|o: &SdOption| o@) =~= os.subrange(index1 as int, i + 1));
            }
            i = i + 1;
        }
        let ghost first = options@.map_values(|o: &SdOption| o@);
        let mut k: usize = index2;
        while k < index2 + num2
            invariant
                index2 <= k <= index2 + num2 <= n,
                n == self.options@.len(),
                os == self@.2,
                options@.map_values(|o: &SdOption| o@) == first + os.subrange(index2 as int, k as int),
            decreases index2 + num2 - k,
        {
            let o: &SdOption = &self.options[k];
            let ghost before = options@;
            options.push(o);
            proof {
                assert(o@ == os[k as int]);
                assert(options@ == before.push(o));
                assert(options@.map_values(|o: &SdOption| o@) =~= before.map_values(|o: &SdOption| o@).push(o@));
                assert(options@.map_values(|o: &SdOption| o@) =~= first + os.subrange(index2 as int, k + 1));
            }
            k = k + 1;
        }
        assert(first =~= option_run(os, index1 as int, num1 as int));
        assert(os.subrange(index2 as int, (index2 + num2) as int) =~= option_run(os, index2 as int, num2 as int));
        options
    }

    /// The endpoints among the options `entry` references, in order.
    pub fn get_endpoints_for_entry(&self, entry: &SdEntry) -> (r: Vec<Endpoint>)
        ensures
            r@ == endpoints_in(options_for(self@.2, *entry)),
    {
        let options = self.get_options_for_entry(entry);
        let ghost os = options@.map_values(|o: &SdOption| o@);
        let mut endpoints: Vec<Endpoint> = Vec::new();
        let mut i: usize = 0;
        while i < options.len()
            invariant
                0 <= i <= options@.len(),
                os == options@.map_values(|o: &SdOption| o@),
                endpoints@ == endpoints_in(os.subrange(0, i as int)),
            decreases options@.len() - i,
        {
            let ghost before = endpoints@;
            proof {
                assert(os.subrange(0, i + 1).drop_last() =~= os.subrange(0, i as int));
            }
            match Endpoint::from_option(options[i]) {
                Some(ep) => endpoints.push(ep),
                None => {},
            }
            i = i + 1;
        }
        assert(os.subrange(0, os.len() as int) =~= os);
        endpoints
    }

    /// An empty message.
    pub fn new() -> (r: SdMessage)
        ensures
            r@ == (SdFlags { reboot: false, unicast: false, explicit_initial_data: false }, Seq::<SdEntry>::empty(), Seq::<SdOptionView>::empty()),
    {
        let r = SdMessage { flags: SdFlags { reboot: false, unicast: false, explicit_initial_data: false }, entries: Vec::new(), options: Vec::new() };
        assert(r@.2 =~= Seq::<SdOptionView>::empty());
        r
    }

    /// A message of one entry and the given options, with no flags set.
    fn single(entry: SdEntry, options: Vec<SdOption>) -> (r: SdMessage)
        ensures
            r@ == (SdFlags { reboot: false, unicast: false, explicit_initial_data: false }, seq![entry], options@.map_values(|o: SdOption| o@)),
    {
        let mut entries: Vec<SdEntry> = Vec::new();
        entries.push(entry);
        assert(entries@ =~= seq![entry]);
        SdMessage { flags: SdFlags { reboot: false, unicast: false, explicit_initial_data: false }, entries, options }
    }

    /// A find message for a service.
    pub fn find_service(service_id: ServiceId, instance_id: InstanceId, major_version: u8, minor_version: u32) -> (r: SdMessage)
        ensures
            r@.1 == seq![SdEntry::Service(ServiceEntry::spec_plain(EntryType::FindService, service_id, instance_id, major_version, minor_version, 0xFF_FFFF))],
            r@.2.len() == 0,
            r@.0 == SdFlags::spec_from_code(0),
    {
        let entry = ServiceEntry::find_service(service_id, instance_id, major_version, minor_version);
        Self::single(SdEntry::Service(entry), Vec::new())
    }

    /// An offer message naming `endpoint` as the entry's one option.
    pub fn offer_service(service_id: ServiceId, instance_id: InstanceId, major_version: u8, minor_version: u32, ttl: u32, endpoint: Endpoint) -> (r: SdMessage)
        ensures
            r@.1 == seq![SdEntry::Service(ServiceEntry {
                num_options_1: 1,
                ..ServiceEntry::spec_plain(EntryType::OfferService, service_id, instance_id, major_version, minor_version, ttl % 0x100_0000)
            })],
            r@.2.len() == 1,
            endpoint_of(r@.2[0]) == Some(endpoint),
            r@.0 == SdFlags::spec_from_code(0),
    {
        let mut entry = ServiceEntry::offer_service(service_id, instance_id, major_version, minor_version, ttl);
        entry.index_first_option = 0;
        entry.num_options_1 = 1;
        let mut options: Vec<SdOption> = Vec::new();
        options.push(endpoint.to_option());
        Self::single(SdEntry::Service(entry), options)
    }

    /// A stop-offer message.
    pub fn stop_offer_service(service_id: ServiceId, instance_id: InstanceId, major_version: u8, minor_version: u32) -> (r: SdMessage)
        ensures
            r@.1 == seq![SdEntry::Service(ServiceEntry::spec_plain(EntryType::OfferService, service_id, instance_id, major_version, minor_version, 0))],
            r@.2.len() == 0,
            r@.0 == SdFlags::spec_from_code(0),
    {
        let entry = ServiceEntry::stop_offer_service(service_id, instance_id, major_version, minor_version);
        Self::single(SdEntry::Service(entry), Vec::new())
    }

    /// A subscribe message naming the subscriber's `endpoint` as the entry's one option.
    pub fn subscribe_eventgroup(service_id: ServiceId, instance_id: InstanceId, major_version: u8, eventgroup_id: EventgroupId, ttl: u32, endpoint: Endpoint) -> (r: SdMessage)
        ensures
            r@.1 == seq![SdEntry::Eventgroup(EventgroupEntry {
                num_options_1: 1,
                ..EventgroupEntry::spec_plain(EntryType::SubscribeEventgroup, service_id, instance_id, major_version, eventgroup_id, ttl % 0x100_0000, 0)
            })],
            r@.2.len() == 1,
            endpoint_of(r@.2[0]) == Some(endpoint),
            r@.0 == SdFlags::spec_from_code(0),
    {
        let mut entry = EventgroupEntry::subscribe(service_id, instance_id, major_version, eventgroup_id, ttl);
        entry.index_first_option = 0;
        entry.num_options_1 = 1;
        let mut options: Vec<SdOption> = Vec::new();
        options.push(endpoint.to_option());
        Self::single(SdEntry::Eventgroup(entry), options)
    }

    /// An unsubscribe message.
    pub fn stop_subscribe_eventgroup(service_id: ServiceId, instance_id: InstanceId, major_version: u8, eventgroup_id: EventgroupId) -> (r: SdMessage)
        ensures
            r@.1 == seq![SdEntry::Eventgroup(EventgroupEntry::spec_plain(EntryType::SubscribeEventgroup, service_id, instance_id, major_version, eventgroup_id, 0, 0))],
            r@.2.len() == 0,
            r@.0 == SdFlags::spec_from_code(0),
    {
        let entry = EventgroupEntry::unsubscribe(service_id, instance_id, major_version, eventgroup_id);
        Self::single(SdEntry::Eventgroup(entry), Vec::new())
    }

    /// An acknowledge message, naming `endpoint` (a multicast group, say) when given.
    pub fn subscribe_eventgroup_ack(service_id: ServiceId, instance_id: InstanceId, major_version: u8, eventgroup_id: EventgroupId, ttl: u32, counter: u8, endpoint: Option<Endpoint>) -> (r: SdMessage)
        ensures
            r@.1 == seq![SdEntry::Eventgroup(EventgroupEntry {
                num_options_1: if endpoint is Some { 1u8 } else { 0u8 },
                ..EventgroupEntry::spec_plain(EntryType::SubscribeEventgroupAck, service_id, instance_id, major_version, eventgroup_id, ttl % 0x100_0000, counter)
            })],
            r@.2.len() == if endpoint is Some { 1int } else { 0int },
            endpoint matches Some(ep) ==> endpoint_of(r@.2[0]) == Some(ep),
            r@.0 == SdFlags::spec_from_code(0),
    {
        let mut entry = EventgroupEntry::subscribe_ack(service_id, instance_id, major_version, eventgroup_id, ttl, counter);
        let mut options: Vec<SdOption> = Vec::new();
        match endpoint {
            Some(ep) => {
                entry.index_first_option = 0;
                entry.num_options_1 = 1;
                options.push(ep.to_option());
            },
            None => {},
        }
        Self::single(SdEntry::Eventgroup(entry), options)
    }

    /// A negative acknowledge message.
    pub fn subscribe_eventgroup_nack(service_id: ServiceId, instance_id: InstanceId, major_version: u8, eventgroup_id: EventgroupId, counter: u8) -> (r: SdMessage)
        ensures
            r@.1 == seq![SdEntry::Eventgroup(EventgroupEntry::spec_plain(EntryType::SubscribeEventgroupAck, service_id, instance_id, major_version, eventgroup_id, 0, counter))],
            r@.2.len() == 0,
            r@.0 == SdFlags::spec_from_code(0),
    {
        let entry = EventgroupEntry::subscribe_nack(service_id, instance_id, major_version, eventgroup_id, counter);
        Self::single(SdEntry::Eventgroup(entry), Vec::new())
    }
}

} // verus!

verus! {

proof fn lemma_flags_round_trip(f: SdFlags)
    ensures
        SdFlags::spec_from_code(f.code()) == f,
{
}

proof fn lemma_protocol_round_trip(p: TransportProtocol)
    ensures
        TransportProtocol::spec_from_code(p.code()) == Some(p),
{
}

proof fn lemma_entries_bytes_len(es: Seq<SdEntry>)
    ensures
        entries_bytes(es).len() == 16 * es.len(),
    decreases es.len(),
{
    if es.len() > 0 {
        lemma_entries_bytes_len(es.drop_first());
        crate::sd::entry::lemma_entry_bytes_len(es[0]);
    }
}

proof fn lemma_parse_entries_of(es: Seq<SdEntry>)
    requires
        forall|i: int| 0 <= i < es.len() ==> (#[trigger] es[i]).valid(),
    ensures
        parse_entries(entries_bytes(es)) == es,
    decreases es.len(),
{
    let b = entries_bytes(es);
    if es.len() == 0 {
        assert(b.len() == 0);
        assert(es =~= Seq::<SdEntry>::empty());
    } else {
        let rest = es.drop_first();
        assert forall|i: int| 0 <= i < rest.len() implies (#[trigger] rest[i]).valid() by {
            assert(rest[i] == es[i + 1]);
        }
        lemma_parse_entries_of(rest);
        lemma_entries_bytes_len(rest);
        assert(es[0].valid());
        crate::sd::entry::lemma_entry_bytes_len(es[0]);
        assert(b.subrange(0, 16) =~= es[0].spec_bytes());
        crate::sd::entry::lemma_entry_round_trip(es[0], b);
        assert(b.subrange(16, b.len() as int) =~= entries_bytes(rest));
        assert(seq![es[0]] + rest =~= es);
    }
}

proof fn lemma_ipv4_round_trip(x: IPv4EndpointOption)
    ensures
        IPv4EndpointOption::parse(x.spec_bytes()) == Some(Ok::<IPv4EndpointOption, SomeIpError>(x)),
{
    let b = x.spec_bytes();
    assert(b.subrange(6, 8) =~= be_u16_bytes(x.port));
    crate::header::lemma_be_u16(x.port, b, 6);
    lemma_protocol_round_trip(x.protocol);
}

proof fn lemma_ipv6_round_trip(x: IPv6EndpointOption)
    ensures
        IPv6EndpointOption::parse(x.spec_bytes()) == Some(Ok::<IPv6EndpointOption, SomeIpError>(x)),
{
    let b = x.spec_bytes();
    let a = x.address;
    assert(b.subrange(0, 2) =~= be_u16_bytes(a.0));
    assert(b.subrange(2, 4) =~= be_u16_bytes(a.1));
    assert(b.subrange(4, 6) =~= be_u16_bytes(a.2));
    assert(b.subrange(6, 8) =~= be_u16_bytes(a.3));
    assert(b.subrange(8, 10) =~= be_u16_bytes(a.4));
    assert(b.subrange(10, 12) =~= be_u16_bytes(a.5));
    assert(b.subrange(12, 14) =~= be_u16_bytes(a.6));
    assert(b.subrange(14, 16) =~= be_u16_bytes(a.7));
    assert(b.subrange(18, 20) =~= be_u16_bytes(x.port));
    crate::header::lemma_be_u16(a.0, b, 0);
    crate::header::lemma_be_u16(a.1, b, 2);
    crate::header::lemma_be_u16(a.2, b, 4);
    crate::header::lemma_be_u16(a.3, b, 6);
    crate::header::lemma_be_u16(a.4, b, 8);
    crate::header::lemma_be_u16(a.5, b, 10);
    crate::header::lemma_be_u16(a.6, b, 12);
    crate::header::lemma_be_u16(a.7, b, 14);
    crate::header::lemma_be_u16(x.port, b, 18);
    assert(b[17] == x.protocol.code());
    lemma_protocol_round_trip(x.protocol);
}

/// Option round trip: the data of a valid option decodes to the option.
pub proof fn lemma_option_data_round_trip(o: SdOptionView)
    requires
        valid_option(o),
    ensures
        parse_option_data(option_parts(o).0, option_parts(o).1) == Some(Ok::<SdOptionView, SomeIpError>(o)),
{
    reveal(parse_option_data);
    match o {
        SdOptionView::IPv4Endpoint(x) => lemma_ipv4_round_trip(x),
        SdOptionView::IPv6Endpoint(x) => lemma_ipv6_round_trip(x),
        SdOptionView::IPv4Multicast(x) => lemma_ipv4_round_trip(x),
        SdOptionView::IPv6Multicast(x) => lemma_ipv6_round_trip(x),
        SdOptionView::Configuration(s) => {
            vstd::utf8::encode_utf8_valid_utf8(s);
            vstd::utf8::encode_utf8_decode_utf8(s);
        },
        SdOptionView::Unknown(t, d) => {},
    }
}

proof fn lemma_option_front(o: SdOptionView, r: Seq<u8>)
    requires
        valid_option(o),
    ensures
        ({
            let d = option_bytes(o) + r;
            let total: int = 4 + be_u16_at(d, 0) as int;
            &&& d.len() >= 4
            &&& total == option_bytes(o).len()
            &&& d.len() >= total
            &&& parse_option_data(d[2], d.subrange(4, total)) == Some(Ok::<SdOptionView, SomeIpError>(o))
            &&& d.subrange(total, d.len() as int) == r
        }),
{
    let (t, data) = option_parts(o);
    let ob = option_bytes(o);
    let d = ob + r;
    assert(ob.subrange(0, 2) =~= be_u16_bytes(data.len() as u16));
    assert(d.subrange(0, 2) =~= ob.subrange(0, 2));
    crate::header::lemma_be_u16(data.len() as u16, d, 0);
    let total: int = 4 + data.len() as int;
    assert(d[2] == t);
    assert(d.subrange(4, total) =~= data);
    lemma_option_data_round_trip(o);
    assert(d.subrange(total, d.len() as int) =~= r);
}

proof fn lemma_parse_options_of(os: Seq<SdOptionView>)
    requires
        forall|i: int| 0 <= i < os.len() ==> valid_option(#[trigger] os[i]),
    ensures
        parse_options(options_bytes(os), options_bytes(os).len() as int) == Some(
            Ok::<Seq<SdOptionView>, SomeIpError>(os),
        ),
    decreases os.len(),
{
    let d = options_bytes(os);
    if os.len() == 0 {
        assert(d.len() == 0);
        assert(os =~= Seq::<SdOptionView>::empty());
    } else {
        let o = os[0];
        let rest = os.drop_first();
        assert forall|i: int| 0 <= i < rest.len() implies valid_option(#[trigger] rest[i]) by {
            assert(rest[i] == os[i + 1]);
        }
        lemma_parse_options_of(rest);
        assert(valid_option(o));
        let rb = options_bytes(rest);
        lemma_option_front(o, rb);
        assert(d == option_bytes(o) + rb);
        let total: int = 4 + be_u16_at(d, 0) as int;
        assert(d.len() - total == rb.len());
        assert(parse_options(d, d.len() as int) == match parse_options(rb, rb.len() as int) {
            Some(Ok(xs)) => Some(Ok::<Seq<SdOptionView>, SomeIpError>(seq![o] + xs)),
            other => other,
        });
        assert(seq![o] + rest =~= os);
    }
}

/// SD round trip: decoding the encoding of a valid SD message gives back its
/// flags, its entries and its options, unknown options included.
pub proof fn lemma_sd_round_trip(m: SdMessageView)
    requires
        valid_sd(m),
    ensures
        parse_sd(sd_bytes(m)) == Some(Ok::<SdMessageView, SomeIpError>(m)),
{
    let b = sd_bytes(m);
    let eb = entries_bytes(m.1);
    let ob = options_bytes(m.2);
    lemma_entries_bytes_len(m.1);
    let el: int = m.1.len() as int * 16;
    assert(b.subrange(4, 8) =~= be_u32_bytes(el as u32));
    crate::header::lemma_be_u32(el as u32, b, 4);
    assert(b.subrange(8, 8 + el) =~= eb);
    assert(b.subrange(8 + el, 12 + el) =~= be_u32_bytes(ob.len() as u32));
    crate::header::lemma_be_u32(ob.len() as u32, b, 8 + el);
    assert(b.subrange(12 + el, b.len() as int) =~= ob);
    lemma_parse_entries_of(m.1);
    lemma_parse_options_of(m.2);
    lemma_flags_round_trip(m.0);
}

} // verus!
