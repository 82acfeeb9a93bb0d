//! The camera registry: the cameras that the registry file lists, matched
//! against the devices found on the USB bus.
use vstd::prelude::*;
use crate::decimal::{decimal_digits, lemma_u16_text_roundtrip, parse_u16, spec_parse_u16};
use crate::info::{CameraInfo, CameraInfoView, ConnectionType, Protocol, Status};
use crate::scan::UsbLinkInfo;

verus! {

/// A camera as the registry file lists it.
#[derive(Debug, PartialEq)]
pub struct Camera {
    pub name: String,
    pub device_count: String,
    pub device_type: String,
    pub vendor_id: String,
    pub product_id: String,
    pub id: Option<String>,
}

impl Clone for Camera {
    fn clone(&self) -> (r: Self)
        ensures
            r == *self,
    {
        Camera {
            name: self.name.clone(),
            device_count: self.device_count.clone(),
            device_type: self.device_type.clone(),
            vendor_id: self.vendor_id.clone(),
            product_id: self.product_id.clone(),
            id: match &self.id {
                Some(id) => Some(id.clone()),
                None => None,
            },
        }
    }
}

impl Camera {
    /// Gives the camera the id `id`; nothing else changes.
    pub fn update_id(&mut self, id: String)
        ensures
            *final(self) == (Camera { id: Some(id), ..*old(self) }),
    {
        self.id = Some(id);
    }
}

/// The vendor and product id of a registry entry both read as `u16`.
pub open spec fn ids_parse(c: Camera) -> bool {
    &&& spec_parse_u16(c.vendor_id@) is Some
    &&& spec_parse_u16(c.product_id@) is Some
}

/// Every entry of the registry has ids that read as `u16`.
pub open spec fn all_ids_parse(xml: Seq<Camera>) -> bool {
    forall|k: int| 0 <= k < xml.len() ==> ids_parse(#[trigger] xml[k])
}

/// The USB identity that a registry entry names.
pub open spec fn usb_identity(c: Camera) -> UsbLinkInfo {
    UsbLinkInfo {
        vendor_id: spec_parse_u16(c.vendor_id@).unwrap(),
        product_id: spec_parse_u16(c.product_id@).unwrap(),
    }
}

/// A registry entry counts as detected when its USB identity occurs among
/// the scanned devices.
pub open spec fn is_detected(scanned: Seq<UsbLinkInfo>, c: Camera) -> bool {
    exists|i: int| 0 <= i < scanned.len() && #[trigger] scanned[i] == usb_identity(c)
}

/// The positions of the detected registry entries, in registry order.
pub open spec fn detected_indices(xml: Seq<Camera>, scanned: Seq<UsbLinkInfo>) -> Seq<int>
    decreases xml.len(),
{
    if xml.len() == 0 {
        Seq::empty()
    } else {
        let rest = detected_indices(xml.drop_last(), scanned);
        if is_detected(scanned, xml.last()) {
            rest.push(xml.len() - 1)
        } else {
            rest
        }
    }
}

/// The character is a lower-case hexadecimal digit.
pub open spec fn is_lower_hex(c: char) -> bool {
    ('0' <= c && c <= '9') || ('a' <= c && c <= 'f')
}

/// `s` is the hyphenated lower-case text of a random (version 4, RFC 4122
/// variant) UUID, such as `67e55044-10b1-426f-9247-bb680e5fe0c8`.
pub open spec fn is_v4_uuid_text(s: Seq<char>) -> bool {
    &&& s.len() == 36
    &&& forall|i: int|
        0 <= i < 36 ==> if i == 8 || i == 13 || i == 18 || i == 23 {
            s[i] == '-'
        } else {
            is_lower_hex(#[trigger] s[i])
        }
    &&& s[14] == '4'
    &&& (s[19] == '8' || s[19] == '9' || s[19] == 'a' || s[19] == 'b')
}

/// `after` is the registry entry `before` once it holds an id: the id it
/// had, or a fresh random one where it had none.
pub open spec fn id_assigned(before: Camera, after: Camera) -> bool {
    &&& after == Camera { id: after.id, ..before }
    &&& after.id is Some
    &&& before.id is Some ==> after.id == before.id
    &&& before.id is None ==> is_v4_uuid_text(after.id.unwrap()@)
}

/// The registry `after` is `before` once validation against `scanned` has
/// given every detected entry an id, and left every other entry alone.
pub open spec fn registry_after_validation(
    before: Seq<Camera>,
    after: Seq<Camera>,
    scanned: Seq<UsbLinkInfo>,
) -> bool {
    &&& after.len() == before.len()
    &&& forall|k: int|
        0 <= k < before.len() ==> if is_detected(scanned, #[trigger] before[k]) {
            id_assigned(before[k], after[k])
        } else {
            after[k] == before[k]
        }
}

/// The record of a validated camera made from its registry entry.
pub open spec fn validated_view(c: Camera) -> CameraInfoView {
    CameraInfoView {
        name: c.name@,
        address: Seq::empty(),
        connection_type: ConnectionType::HARD,
        port: 0,
        vendor_id: c.vendor_id@,
        product_id: c.product_id@,
        id: c.id.unwrap()@,
        protocol: Protocol::USB,
        status: Status::OFFLINE,
    }
}

/// What a registry holds: its entries, and the records of the cameras
/// validated so far, in the order they were validated.
pub struct RegistryState {
    pub xml: Seq<Camera>,
    pub validated: Seq<CameraInfoView>,
}

/// The records that one validation appends: one per detected position in
/// `det`, made from the entry that position holds afterwards.
pub open spec fn appended_records(xml: Seq<Camera>, det: Seq<int>) -> Seq<CameraInfoView> {
    Seq::new(det.len(), |m: int| validated_view(xml[det[m]]))
}

/// `after` is `before` once validated against `scanned`: detected entries
/// hold ids, and their records are appended after the earlier ones.
pub open spec fn validation_step(
    before: RegistryState,
    after: RegistryState,
    scanned: Seq<UsbLinkInfo>,
) -> bool {
    &&& registry_after_validation(before.xml, after.xml, scanned)
    &&& after.validated == before.validated + appended_records(
        after.xml,
        detected_indices(before.xml, scanned),
    )
}

/// The records that the first `k` validations of a run append, in call
/// order: validation `i` takes `states[i]` to `states[i + 1]` with the scan
/// `scans[i]`.
pub open spec fn appended_upto(
    states: Seq<RegistryState>,
    scans: Seq<Seq<UsbLinkInfo>>,
    k: int,
) -> Seq<CameraInfoView>
    decreases k,
{
    if k <= 0 {
        Seq::empty()
    } else {
        appended_upto(states, scans, k - 1) + appended_records(
            states[k].xml,
            detected_indices(states[k - 1].xml, scans[k - 1]),
        )
    }
}

/// Over any run of validations, the validated cameras are the ones there
/// were at the start followed by what each validation appended, in call
/// order.
pub proof fn lemma_validations_accumulate(
    states: Seq<RegistryState>,
    scans: Seq<Seq<UsbLinkInfo>>,
    k: int,
)
    requires
        states.len() == scans.len() + 1,
        0 <= k <= scans.len(),
        forall|i: int| 0 <= i < scans.len() ==> validation_step(#[trigger] states[i], states[i + 1], scans[i]),
    ensures
        states[k].validated == states[0].validated + appended_upto(states, scans, k),
    decreases k,
{
    if k > 0 {
        lemma_validations_accumulate(states, scans, k - 1);
        assert(validation_step(states[k - 1], states[k], scans[k - 1]));
        assert(states[k].validated =~= states[0].validated + appended_upto(states, scans, k));
    } else {
        assert(states[0].validated =~= states[0].validated + Seq::<CameraInfoView>::empty());
    }
}

/// Calls `uuid::Uuid::new_v4` and writes the UUID with `to_string`. The
/// crate sets the version nibble to 4 and the variant bits to `10`, and
/// writes the UUID hyphenated in lower case; which random bits the rest
/// holds is left unsaid.
#[verifier::external_body]
fn new_device_id() -> (id: String)
    ensures
        is_v4_uuid_text(id@),
{
    uuid::Uuid::new_v4().to_string()
}

proof fn lemma_detected_indices_step(xml: Seq<Camera>, scanned: Seq<UsbLinkInfo>, k: int)
    requires
        0 <= k < xml.len(),
    ensures
        detected_indices(xml.take(k + 1), scanned) == if is_detected(scanned, xml[k]) {
            detected_indices(xml.take(k), scanned).push(k)
        } else {
            detected_indices(xml.take(k), scanned)
        },
{
    assert(xml.take(k + 1).drop_last() =~= xml.take(k));
    assert(xml.take(k + 1).last() == xml[k]);
}

/// The detected positions are in range, detected, strictly increasing, and
/// every detected position is among them.
proof fn lemma_detected_indices(xml: Seq<Camera>, scanned: Seq<UsbLinkInfo>)
    ensures
        forall|m: int|
            0 <= m < detected_indices(xml, scanned).len() ==> {
                let k = #[trigger] detected_indices(xml, scanned)[m];
                0 <= k < xml.len() && is_detected(scanned, xml[k])
            },
        forall|a: int, b: int|
            0 <= a < b < detected_indices(xml, scanned).len() ==> #[trigger] detected_indices(
                xml,
                scanned,
            )[a] < #[trigger] detected_indices(xml, scanned)[b],
        forall|k: int|
            0 <= k < xml.len() && is_detected(scanned, #[trigger] xml[k])
                ==> detected_indices(xml, scanned).contains(k),
    decreases xml.len(),
{
    if xml.len() > 0 {
        let p = xml.drop_last();
        lemma_detected_indices(p, scanned);
        let rest = detected_indices(p, scanned);
        let det = detected_indices(xml, scanned);
        assert forall|m: int| 0 <= m < det.len() implies {
            let k = #[trigger] det[m];
            0 <= k < xml.len() && is_detected(scanned, xml[k])
        } by {
            if m < rest.len() {
                assert(det[m] == rest[m]);
                assert(xml[rest[m]] == p[rest[m]]);
            }
        }
        assert forall|k: int|
            0 <= k < xml.len() && is_detected(scanned, #[trigger] xml[k]) implies det.contains(
                k,
            ) by {
            if k < p.len() {
                assert(p[k] == xml[k]);
                let m = choose|m: int| 0 <= m < rest.len() && #[trigger] rest[m] == k;
                assert(det[m] == k);
            } else {
                assert(det[det.len() - 1] == k);
            }
        }
    }
}

/// The first position of `key` among the scanned devices, if it occurs.
fn position_of(scanned: &Vec<UsbLinkInfo>, key: UsbLinkInfo) -> (r: Option<usize>)
    ensures
        match r {
            Some(i) => i < scanned@.len() && scanned@[i as int] == key,
            None => forall|j: int| 0 <= j < scanned@.len() ==> scanned@[j] != key,
        },
{
    let mut i: usize = 0;
    while i < scanned.len()
        invariant
            i <= scanned@.len(),
            forall|j: int| 0 <= j < i ==> scanned@[j] != key,
        decreases scanned@.len() - i,
    {
        if scanned[i] == key {
            return Some(i);
        }
        i = i + 1;
    }
    None
}

/// The camera registry, and the cameras of it that have been validated.
pub struct Read {
    xml_read_data: Vec<Camera>,
    validated_devices: Vec<CameraInfo>,
}

impl Read {
    /// The registry entries.
    pub closed spec fn xml_data(&self) -> Seq<Camera> {
        self.xml_read_data@
    }

    /// The validated cameras, in the order they were validated.
    pub closed spec fn validated(&self) -> Seq<CameraInfo> {
        self.validated_devices@
    }

    /// The registry's entries and the records of its validated cameras.
    pub closed spec fn state(&self) -> RegistryState {
        RegistryState {
            xml: self.xml_read_data@,
            validated: self.validated_devices@.map_values(|c: CameraInfo| c@),
        }
    }

    /// A registry of the entries read from the registry file, with no
    /// camera validated yet.
    pub fn new(xml_read_data: Vec<Camera>) -> (r: Read)
        ensures
            r.xml_data() == xml_read_data@,
            r.validated() == Seq::<CameraInfo>::empty(),
            r.state() == (RegistryState { xml: xml_read_data@, validated: Seq::empty() }),
    {
        let r: Read = Read { xml_read_data, validated_devices: Vec::new() };
        assert(r.state().validated =~= Seq::<CameraInfoView>::empty());
        r
    }

    /// Whether every registry entry has a vendor and a product id that read
    /// as `u16`, as `validate_and_match` needs.
    pub fn ids_are_numeric(&self) -> (r: bool)
        ensures
            r == all_ids_parse(self.xml_data()),
    {
        let mut k: usize = 0;
        while k < self.xml_read_data.len()
            invariant
                k <= self.xml_data().len(),
                forall|j: int| 0 <= j < k ==> ids_parse(#[trigger] self.xml_data()[j]),
            decreases self.xml_data().len() - k,
        {
            let c: &Camera = &self.xml_read_data[k];
            if parse_u16(c.vendor_id.as_str()).is_none() || parse_u16(
                c.product_id.as_str(),
            ).is_none() {
                assert(!ids_parse(self.xml_data()[k as int]));
                return false;
            }
            k = k + 1;
        }
        true
    }

    /// Matches the registry against the devices found on the USB bus. Each
    /// detected entry keeps its id or gets a fresh random one, and a record
    /// of it is appended to the validated cameras, in registry order.
    pub fn validate_and_match(&mut self, scanned_devices: &Vec<UsbLinkInfo>)
        requires
            all_ids_parse(old(self).xml_data()),
        ensures
            registry_after_validation(
                old(self).xml_data(),
                final(self).xml_data(),
                scanned_devices@,
            ),
            ({
                let det = detected_indices(old(self).xml_data(), scanned_devices@);
                let n = old(self).validated().len();
                &&& final(self).validated().len() == n + det.len()
                &&& forall|m: int| 0 <= m < n ==> final(self).validated()[m] == old(self).validated()[m]
                &&& forall|m: int|
                    0 <= m < det.len() ==> (#[trigger] final(self).validated()[n + m])@
                        == validated_view(final(self).xml_data()[det[m]])
            }),
            validation_step(old(self).state(), final(self).state(), scanned_devices@),
    {
        let ghost old_xml: Seq<Camera> = self.xml_read_data@;
        let ghost old_val: Seq<CameraInfo> = self.validated_devices@;
        let ghost scanned: Seq<UsbLinkInfo> = scanned_devices@;
        let mut x_scan_idxs: Vec<usize> = Vec::new();
        let mut k: usize = 0;
        while k < self.xml_read_data.len()
            invariant
                self.xml_read_data@ == old_xml,
                self.validated_devices@ == old_val,
                scanned == scanned_devices@,
                all_ids_parse(old_xml),
                k <= old_xml.len(),
                x_scan_idxs@.len() == detected_indices(old_xml.take(k as int), scanned).len(),
                forall|m: int|
                    0 <= m < x_scan_idxs@.len() ==> #[trigger] x_scan_idxs@[m] as int
                        == detected_indices(old_xml.take(k as int), scanned)[m],
            decreases old_xml.len() - k,
        {
            let xd: &Camera = &self.xml_read_data[k];
            assert(ids_parse(old_xml[k as int]));
            let vendor_id: u16 = parse_u16(xd.vendor_id.as_str()).unwrap();
            let product_id: u16 = parse_u16(xd.product_id.as_str()).unwrap();
            let tmp_structure: UsbLinkInfo = UsbLinkInfo::new(vendor_id, product_id);
            assert(tmp_structure == usb_identity(old_xml[k as int]));
            let search_result: Option<usize> = position_of(scanned_devices, tmp_structure);
            proof {
                if search_result is None && is_detected(scanned, old_xml[k as int]) {
                    let i = choose|i: int|
                        0 <= i < scanned.len() && #[trigger] scanned[i] == tmp_structure;
                    assert(scanned[i] != tmp_structure);
                }
                lemma_detected_indices_step(old_xml, scanned, k as int);
            }
            if search_result.is_some() {
                x_scan_idxs.push(k);
            }
            k = k + 1;
        }
        assert(old_xml.take(old_xml.len() as int) =~= old_xml);
        let ghost det: Seq<int> = detected_indices(old_xml, scanned);
        proof {
            lemma_detected_indices(old_xml, scanned);
        }
        let mut j: usize = 0;
        while j < x_scan_idxs.len()
            invariant
                scanned == scanned_devices@,
                det == detected_indices(old_xml, scanned),
                x_scan_idxs@.len() == det.len(),
                forall|m: int| 0 <= m < x_scan_idxs@.len() ==> #[trigger] x_scan_idxs@[m] as int == det[m],
                forall|m: int|
                    0 <= m < det.len() ==> {
                        let k = #[trigger] det[m];
                        0 <= k < old_xml.len() && is_detected(scanned, old_xml[k])
                    },
                forall|a: int, b: int| 0 <= a < b < det.len() ==> #[trigger] det[a] < #[trigger] det[b],
                j <= det.len(),
                self.xml_read_data@.len() == old_xml.len(),
                forall|k: int|
                    0 <= k < old_xml.len() ==> if det.take(j as int).contains(k) {
                        id_assigned(old_xml[k], #[trigger] self.xml_read_data@[k])
                    } else {
                        self.xml_read_data@[k] == old_xml[k]
                    },
                self.validated_devices@.len() == old_val.len() + j,
                forall|m: int|
                    0 <= m < old_val.len() ==> #[trigger] self.validated_devices@[m] == old_val[m],
                forall|m: int|
                    0 <= m < j ==> (#[trigger] self.validated_devices@[old_val.len() + m])@
                        == validated_view(self.xml_read_data@[det[m]]),
            decreases det.len() - j,
        {
            let i: usize = x_scan_idxs[j];
            assert(!det.take(j as int).contains(i as int)) by {
                if det.take(j as int).contains(i as int) {
                    let m = choose|m: int| 0 <= m < j && #[trigger] det.take(j as int)[m] == i as int;
                    assert(det[m] < det[j as int]);
                }
            }
            let mut cam: Camera = self.xml_read_data[i].clone();
            let id: String = match &cam.id {
                Some(id) => id.clone(),
                None => new_device_id(),
            };
            cam.update_id(id.clone());
            let allocate_new: CameraInfo = CameraInfo::new(
                &cam.name,
                &String::new(),
                ConnectionType::HARD,
                0,
                &cam.vendor_id,
                &cam.product_id,
                id,
            );
            let ghost prev_xml: Seq<Camera> = self.xml_read_data@;
            self.xml_read_data.set(i, cam);
            self.validated_devices.push(allocate_new);
            proof {
                assert forall|k: int| 0 <= k < old_xml.len() implies if det.take(j + 1).contains(k) {
                    id_assigned(old_xml[k], #[trigger] self.xml_read_data@[k])
                } else {
                    self.xml_read_data@[k] == old_xml[k]
                } by {
                    if k == i as int {
                        assert(det.take(j + 1)[j as int] == k);
                    } else {
                        assert(self.xml_read_data@[k] == prev_xml[k]);
                        if det.take(j + 1).contains(k) {
                            let m = choose|m: int| 0 <= m < j + 1 && #[trigger] det.take(j + 1)[m] == k;
                            assert(det.take(j as int)[m] == k);
                        } else {
                            if det.take(j as int).contains(k) {
                                let m = choose|m: int| 0 <= m < j && #[trigger] det.take(j as int)[m] == k;
                                assert(det.take(j + 1)[m] == k);
                            }
                        }
                    }
                }
                assert forall|m: int| 0 <= m < j + 1 implies (#[trigger] self.validated_devices@[old_val.len() + m])@
                    == validated_view(self.xml_read_data@[det[m]]) by {
                    if m < j {
                        assert(det[m] < det[j as int]);
                        assert(self.xml_read_data@[det[m]] == prev_xml[det[m]]);
                    }
                }
            }
            j = j + 1;
        }
        proof {
            assert(det.take(det.len() as int) =~= det);
            assert forall|k: int| 0 <= k < old_xml.len() implies if is_detected(scanned, #[trigger] old_xml[k]) {
                id_assigned(old_xml[k], self.xml_read_data@[k])
            } else {
                self.xml_read_data@[k] == old_xml[k]
            } by {
                if det.contains(k) {
                    let m = choose|m: int| 0 <= m < det.len() && #[trigger] det[m] == k;
                    assert(is_detected(scanned, old_xml[det[m]]));
                }
            }
            let before_views: Seq<CameraInfoView> = old_val.map_values(|c: CameraInfo| c@);
            let after_views: Seq<CameraInfoView> = self.validated_devices@.map_values(
                |c: CameraInfo| c@,
            );
            let appended: Seq<CameraInfoView> = appended_records(self.xml_read_data@, det);
            assert forall|i: int| 0 <= i < after_views.len() implies #[trigger] after_views[i] == (
            before_views + appended)[i] by {
                if i >= old_val.len() {
                    let m: int = i - old_val.len();
                    assert(self.validated_devices@[old_val.len() + m] == self.validated_devices@[i]);
                }
            }
            assert(after_views =~= before_views + appended);
        }
    }

    /// The number of validated cameras.
    pub fn device_count(&self) -> (r: usize)
        ensures
            r == self.validated().len(),
    {
        self.validated_devices.len()
    }

    /// The validated cameras, in the order they were validated.
    pub fn validated_cameras(&self) -> (r: &Vec<CameraInfo>)
        ensures
            r@ == self.validated(),
            r@.map_values(|c: CameraInfo| c@) == self.state().validated,
    {
        &self.validated_devices
    }

    /// The state of a registry is its entries and the records of its
    /// validated cameras.
    pub proof fn lemma_state_parts(&self)
        ensures
            self.state() == (RegistryState {
                xml: self.xml_data(),
                validated: self.validated().map_values(|c: CameraInfo| c@),
            }),
    {
    }

    /// The registry entries.
    pub fn cameras(&self) -> (r: &Vec<Camera>)
        ensures
            r@ == self.xml_data(),
    {
        &self.xml_read_data
    }
}


/// What Rust's `Debug` formatting (`{:?}`) writes for the text `s`: the text
/// in double quotes, with the characters that need it escaped.
pub uninterp spec fn debug_text(s: Seq<char>) -> Seq<char>;

/// Calls std's `Debug` formatting of a `str` (`format!("{:?}", s)`). Its
/// quoting and escaping rules are not written out: the result is named
/// `debug_text` of the text, which depends on the text alone.
#[verifier::external_body]
fn debug_quoted(s: &str) -> (r: String)
    ensures
        r@ == debug_text(s@),
{
    format!("{:?}", s)
}

/// The line block that records one registry entry in the registry file,
/// from the quoted texts of its fields.
pub open spec fn record_text(
    name: Seq<char>,
    device_type: Seq<char>,
    vendor_id: Seq<char>,
    product_id: Seq<char>,
    id: Seq<char>,
) -> Seq<char> {
    "<cameras>\n\t<camera name="@ + name + " device_count=\"001\" device_type="@ + device_type
        + " vendor_id="@ + vendor_id + " product_id="@ + product_id + " id="@ + id
        + "/>\n</cameras>\n"@
}

/// The id text of a registry entry: its id, or the empty text.
pub open spec fn id_text(c: Camera) -> Seq<char> {
    match c.id {
        Some(id) => id@,
        None => Seq::empty(),
    }
}

/// The record of a registry entry, as `camera_record` writes it.
pub open spec fn camera_record_text(c: Camera) -> Seq<char> {
    record_text(
        debug_text(c.name@),
        debug_text(c.device_type@),
        debug_text(c.vendor_id@),
        debug_text(c.product_id@),
        debug_text(id_text(c)),
    )
}

/// The record of one registry entry from the quoted texts of its fields.
pub fn record_from_quoted(
    name: &str,
    device_type: &str,
    vendor_id: &str,
    product_id: &str,
    id: &str,
) -> (r: String)
    ensures
        r@ == record_text(name@, device_type@, vendor_id@, product_id@, id@),
{
    let mut r: String = String::from_str("<cameras>\n\t<camera name=");
    r.append(name);
    r.append(" device_count=\"001\" device_type=");
    r.append(device_type);
    r.append(" vendor_id=");
    r.append(vendor_id);
    r.append(" product_id=");
    r.append(product_id);
    r.append(" id=");
    r.append(id);
    r.append("/>\n</cameras>\n");
    r
}

/// The record of a registry entry, written back to the registry file: its
/// fields quoted as `Debug` writes text, and an entry without an id with
/// the empty id.
pub fn camera_record(c: &Camera) -> (r: String)
    ensures
        r@ == camera_record_text(*c),
{
    let empty: String = String::new();
    let id: &str = match &c.id {
        Some(x) => x.as_str(),
        None => empty.as_str(),
    };
    let name_q: String = debug_quoted(c.name.as_str());
    let type_q: String = debug_quoted(c.device_type.as_str());
    let vendor_q: String = debug_quoted(c.vendor_id.as_str());
    let product_q: String = debug_quoted(c.product_id.as_str());
    let id_q: String = debug_quoted(id);
    record_from_quoted(
        name_q.as_str(),
        type_q.as_str(),
        vendor_q.as_str(),
        product_q.as_str(),
        id_q.as_str(),
    )
}

impl Read {
    /// The records that write the registry back, ids included, one per
    /// entry in registry order.
    pub fn updated_id_records(&self) -> (r: Vec<String>)
        ensures
            r@.len() == self.xml_data().len(),
            forall|k: int| 0 <= k < r@.len() ==> (#[trigger] r@[k])@ == camera_record_text(self.xml_data()[k]),
    {
        let mut r: Vec<String> = Vec::new();
        let mut k: usize = 0;
        while k < self.xml_read_data.len()
            invariant
                k <= self.xml_data().len(),
                r@.len() == k,
                forall|m: int| 0 <= m < k ==> (#[trigger] r@[m])@ == camera_record_text(self.xml_data()[m]),
            decreases self.xml_data().len() - k,
        {
            r.push(camera_record(&self.xml_read_data[k]));
            k = k + 1;
        }
        r
    }
}

/// A second validation against the same scan leaves the registry as the
/// first left it: every entry it detects already holds an id, and keeps it.
pub proof fn lemma_validation_stable(
    first: Seq<Camera>,
    second: Seq<Camera>,
    third: Seq<Camera>,
    scanned: Seq<UsbLinkInfo>,
)
    requires
        registry_after_validation(first, second, scanned),
        registry_after_validation(second, third, scanned),
    ensures
        third == second,
{
    assert forall|k: int| 0 <= k < second.len() implies #[trigger] third[k] == second[k] by {
        assert(usb_identity(second[k]) == usb_identity(first[k]));
        if is_detected(scanned, first[k]) {
            assert(is_detected(scanned, second[k]));
        } else {
            assert(second[k] == first[k]);
        }
    }
    assert(third =~= second);
}

/// Validation detects each registry entry at most once, so it never adds
/// more validated cameras than the registry has entries.
pub proof fn lemma_detected_within_registry(xml: Seq<Camera>, scanned: Seq<UsbLinkInfo>)
    ensures
        detected_indices(xml, scanned).len() <= xml.len(),
    decreases xml.len(),
{
    if xml.len() > 0 {
        lemma_detected_within_registry(xml.drop_last(), scanned);
    }
}

/// A registry entry whose id texts are the ones a USB device reports for
/// itself (`g_vendor_id`, `g_product_id`) names exactly that device.
pub proof fn lemma_registry_names_device(c: Camera, device: UsbLinkInfo)
    requires
        c.vendor_id@ == decimal_digits(device.vendor_id as nat),
        c.product_id@ == decimal_digits(device.product_id as nat),
    ensures
        ids_parse(c),
        usb_identity(c) == device,
{
    lemma_u16_text_roundtrip(device.vendor_id);
    lemma_u16_text_roundtrip(device.product_id);
}

/// Validation matches a registry entry by its whole USB identity: the
/// entry gets a record exactly when some scanned device has both its vendor
/// id and its product id. An entry without such a device is left as it was,
/// and an entry with one holds an id afterwards, the same one where it had
/// an id already.
pub proof fn law_detection_needs_both_ids(
    before: RegistryState,
    after: RegistryState,
    scanned: Seq<UsbLinkInfo>,
    k: int,
)
    requires
        validation_step(before, after, scanned),
        all_ids_parse(before.xml),
        0 <= k < before.xml.len(),
    ensures
        ({
            let vendor = spec_parse_u16(before.xml[k].vendor_id@).unwrap();
            let product = spec_parse_u16(before.xml[k].product_id@).unwrap();
            let present = exists|i: int|
                0 <= i < scanned.len() && (#[trigger] scanned[i]).vendor_id == vendor
                    && scanned[i].product_id == product;
            &&& detected_indices(before.xml, scanned).contains(k) == present
            &&& !present ==> after.xml[k] == before.xml[k]
            &&& present ==> after.xml[k].id is Some
            &&& present && before.xml[k].id is Some ==> after.xml[k].id == before.xml[k].id
        }),
{
    let c = before.xml[k];
    let vendor = spec_parse_u16(c.vendor_id@).unwrap();
    let product = spec_parse_u16(c.product_id@).unwrap();
    let present = exists|i: int|
        0 <= i < scanned.len() && (#[trigger] scanned[i]).vendor_id == vendor
            && scanned[i].product_id == product;
    lemma_detected_indices(before.xml, scanned);
    let det = detected_indices(before.xml, scanned);
    if present {
        let i = choose|i: int|
            0 <= i < scanned.len() && (#[trigger] scanned[i]).vendor_id == vendor
                && scanned[i].product_id == product;
        assert(scanned[i] == usb_identity(c));
        assert(is_detected(scanned, c));
    }
    if is_detected(scanned, c) {
        let i = choose|i: int| 0 <= i < scanned.len() && #[trigger] scanned[i] == usb_identity(c);
        assert(scanned[i].vendor_id == vendor && scanned[i].product_id == product);
        assert(present);
    }
    if det.contains(k) {
        let m = choose|m: int| 0 <= m < det.len() && #[trigger] det[m] == k;
        assert(is_detected(scanned, before.xml[det[m]]));
    }
}

} // verus!
