//! Device descriptors, the consumer-facing device list, and device filters.

use vstd::prelude::*;

verus! {

/// The bus a device is attached through.
#[derive(Debug, Clone, Copy, PartialEq, Eq, Structural)]
pub enum BusType {
    Unknown,
    Usb,
    Bluetooth,
    I2c,
    Spi,
}

/// One attached device as the platform describes it.
#[derive(Debug, Clone, PartialEq, Eq)]
pub struct DeviceDescriptor {
    pub vendor_id: u16,
    pub product_id: u16,
    pub usage: u16,
    pub usage_page: u16,
    pub product_string: String,
    pub bus_type: BusType,
    /// Identifier that the platform assigned; opaque to this crate.
    pub path: String,
}

/// Mathematical value of a [`DeviceDescriptor`].
pub struct DeviceDescriptorView {
    pub vendor_id: u16,
    pub product_id: u16,
    pub usage: u16,
    pub usage_page: u16,
    pub product_string: Seq<char>,
    pub bus_type: BusType,
    pub path: Seq<char>,
}

impl View for DeviceDescriptor {
    type V = DeviceDescriptorView;

    open spec fn view(&self) -> DeviceDescriptorView {
        DeviceDescriptorView {
            vendor_id: self.vendor_id,
            product_id: self.product_id,
            usage: self.usage,
            usage_page: self.usage_page,
            product_string: self.product_string@,
            bus_type: self.bus_type,
            path: self.path@,
        }
    }
}

/// The values of the elements of a sequence, in order.
pub open spec fn views_of<T: View>(items: Seq<T>) -> Seq<T::V> {
    items.map_values(|item: T| item@)
}

/// Text that the platform reported, or the empty text where it reported none.
pub open spec fn text_or_empty(text: Option<String>) -> Seq<char> {
    match text {
        Some(t) => t@,
        None => Seq::empty(),
    }
}

fn owned_or_empty(text: Option<String>) -> (out: String)
    ensures
        out@ == text_or_empty(text),
{
    match text {
        Some(t) => t,
        None => String::new(),
    }
}

impl DeviceDescriptor {
    /// Builds a descriptor from what the platform reports of a device. A
    /// product string or a path that the platform could not give as text is
    /// taken as empty.
    pub fn from_platform(
        vendor_id: u16,
        product_id: u16,
        usage: u16,
        usage_page: u16,
        product_string: Option<String>,
        bus_type: BusType,
        path: Option<String>,
    ) -> (descriptor: DeviceDescriptor)
        ensures
            descriptor@ == (DeviceDescriptorView {
                vendor_id,
                product_id,
                usage,
                usage_page,
                product_string: text_or_empty(product_string),
                bus_type,
                path: text_or_empty(path),
            }),
    {
        DeviceDescriptor {
            vendor_id,
            product_id,
            usage,
            usage_page,
            product_string: owned_or_empty(product_string),
            bus_type,
            path: owned_or_empty(path),
        }
    }
}

/// One entry of the device list handed to the consumer.
#[derive(Debug, Clone, PartialEq, Eq)]
pub struct HidDeviceListItem {
    pub name: String,
    pub vid: u16,
    pub pid: u16,
    /// Whether the device's path has a live session.
    pub opened: bool,
    pub usage: u16,
    pub usage_page: u16,
}

/// Mathematical value of a [`HidDeviceListItem`].
pub struct HidDeviceListItemView {
    pub name: Seq<char>,
    pub vid: u16,
    pub pid: u16,
    pub opened: bool,
    pub usage: u16,
    pub usage_page: u16,
}

impl View for HidDeviceListItem {
    type V = HidDeviceListItemView;

    open spec fn view(&self) -> HidDeviceListItemView {
        HidDeviceListItemView {
            name: self.name@,
            vid: self.vid,
            pid: self.pid,
            opened: self.opened,
            usage: self.usage,
            usage_page: self.usage_page,
        }
    }
}

/// The list entry that describes `device`, given whether its path is open.
pub open spec fn list_item_of(device: DeviceDescriptorView, opened: bool) -> HidDeviceListItemView {
    HidDeviceListItemView {
        name: device.product_string,
        vid: device.vendor_id,
        pid: device.product_id,
        opened,
        usage: device.usage,
        usage_page: device.usage_page,
    }
}

impl HidDeviceListItem {
    /// Describes `device` for the consumer.
    pub fn describe(device: &DeviceDescriptor, opened: bool) -> (item: HidDeviceListItem)
        ensures
            item@ == list_item_of(device@, opened),
    {
        HidDeviceListItem {
            name: device.product_string.clone(),
            vid: device.vendor_id,
            pid: device.product_id,
            opened,
            usage: device.usage,
            usage_page: device.usage_page,
        }
    }
}

/// A pattern over devices. A field that is `None` accepts every value.
#[derive(Debug, Clone, Copy, PartialEq, Eq)]
pub struct HidDeviceFilter {
    pub vendor_id: Option<u16>,
    pub product_id: Option<u16>,
    pub usage_page: Option<u16>,
    pub usage: Option<u16>,
}

/// Whether one filter field accepts a device's value.
pub open spec fn field_accepts(wanted: Option<u16>, actual: u16) -> bool {
    match wanted {
        Some(w) => w == actual,
        None => true,
    }
}

fn field_matches(wanted: Option<u16>, actual: u16) -> (b: bool)
    ensures
        b == field_accepts(wanted, actual),
{
    match wanted {
        Some(w) => w == actual,
        None => true,
    }
}

impl HidDeviceFilter {
    /// Whether the device satisfies every field that the filter specifies.
    pub open spec fn accepts(self, device: DeviceDescriptorView) -> bool {
        &&& field_accepts(self.vendor_id, device.vendor_id)
        &&& field_accepts(self.product_id, device.product_id)
        &&& field_accepts(self.usage_page, device.usage_page)
        &&& field_accepts(self.usage, device.usage)
    }

    /// Whether the device satisfies every field that the filter specifies.
    pub fn matches(&self, device: &DeviceDescriptor) -> (b: bool)
        ensures
            b == self.accepts(device@),
    {
        field_matches(self.vendor_id, device.vendor_id) && field_matches(
            self.product_id,
            device.product_id,
        ) && field_matches(self.usage_page, device.usage_page) && field_matches(
            self.usage,
            device.usage,
        )
    }
}

/// Whether at least one filter of the list accepts the device.
pub open spec fn any_accepts(filters: Seq<HidDeviceFilter>, device: DeviceDescriptorView) -> bool {
    exists|i: int| 0 <= i < filters.len() && (#[trigger] filters[i]).accepts(device)
}

/// Whether at least one filter of the list accepts the device.
pub fn matches_any(filters: &Vec<HidDeviceFilter>, device: &DeviceDescriptor) -> (b: bool)
    ensures
        b == any_accepts(filters@, device@),
{
    let mut i: usize = 0;
    while i < filters.len()
        invariant
            i <= filters.len(),
            forall|j: int| 0 <= j < i ==> !(#[trigger] filters@[j]).accepts(device@),
        decreases filters.len() - i,
    {
        if filters[i].matches(device) {
            return true;
        }
        i = i + 1;
    }
    false
}

/// A device that the consumer may pick: its path and a label to show.
#[derive(Debug, Clone, PartialEq, Eq)]
pub struct HidDeviceLabel {
    pub path: String,
    pub label: String,
}

/// Mathematical value of a [`HidDeviceLabel`].
pub struct HidDeviceLabelView {
    pub path: Seq<char>,
    pub label: Seq<char>,
}

impl View for HidDeviceLabel {
    type V = HidDeviceLabelView;

    open spec fn view(&self) -> HidDeviceLabelView {
        HidDeviceLabelView { path: self.path@, label: self.label@ }
    }
}

/// The label of a device: its path, shown under its product string.
pub open spec fn label_of(device: DeviceDescriptorView) -> HidDeviceLabelView {
    HidDeviceLabelView { path: device.path, label: device.product_string }
}

/// The labels of the devices that the filter list accepts, in the order of
/// the devices.
pub open spec fn requested(
    devices: Seq<DeviceDescriptorView>,
    filters: Seq<HidDeviceFilter>,
) -> Seq<HidDeviceLabelView> {
    devices.filter(|d: DeviceDescriptorView| any_accepts(filters, d)).map_values(
        |d: DeviceDescriptorView| label_of(d),
    )
}

/// Taking one more device into account adds its label exactly when the
/// filter list accepts it.
pub proof fn lemma_requested_push(
    devices: Seq<DeviceDescriptorView>,
    device: DeviceDescriptorView,
    filters: Seq<HidDeviceFilter>,
)
    ensures
        requested(devices.push(device), filters) == if any_accepts(filters, device) {
            requested(devices, filters).push(label_of(device))
        } else {
            requested(devices, filters)
        },
{
    reveal(Seq::filter);
    let pred = |d: DeviceDescriptorView| any_accepts(filters, d);
    assert(devices.push(device).drop_last() =~= devices);
    if any_accepts(filters, device) {
        assert(devices.push(device).filter(pred) == devices.filter(pred).push(device));
        assert(requested(devices.push(device), filters) =~= requested(devices, filters).push(
            label_of(device),
        ));
    } else {
        assert(devices.push(device).filter(pred) == devices.filter(pred));
    }
}

/// Selects the devices that the filter list accepts and labels them.
///
/// A device is selected if it satisfies every specified field of at least
/// one filter, so an empty filter list selects nothing.
pub fn hid_request_device(devices: &Vec<DeviceDescriptor>, filters: &Vec<HidDeviceFilter>) -> (out:
    Vec<HidDeviceLabel>)
    ensures
        views_of(out@) == requested(views_of(devices@), filters@),
{
    let mut out: Vec<HidDeviceLabel> = Vec::new();
    let mut i: usize = 0;
    proof {
        reveal(Seq::filter);
        assert(views_of(devices@).take(0) =~= Seq::empty());
        assert(views_of(out@) =~= requested(views_of(devices@).take(0), filters@));
    }
    while i < devices.len()
        invariant
            i <= devices.len(),
            views_of(out@) == requested(views_of(devices@).take(i as int), filters@),
        decreases devices.len() - i,
    {
        let device = &devices[i];
        proof {
            lemma_requested_push(views_of(devices@).take(i as int), device@, filters@);
            assert(views_of(devices@).take(i as int).push(device@) =~= views_of(devices@).take(
                i + 1,
            ));
        }
        if matches_any(filters, device) {
            let ghost before = out@;
            out.push(HidDeviceLabel { path: device.path.clone(), label: device.product_string.clone() });
            assert(views_of(out@) =~= views_of(before).push(label_of(device@)));
        }
        i = i + 1;
    }
    proof {
        assert(views_of(devices@).take(devices@.len() as int) =~= views_of(devices@));
    }
    out
}

/// An empty filter list accepts no device.
pub proof fn lemma_empty_filter_list_accepts_nothing(device: DeviceDescriptorView)
    ensures
        !any_accepts(Seq::<HidDeviceFilter>::empty(), device),
{
}

/// A filter with every field unset accepts every device, alone and as a
/// member of any filter list.
pub proof fn lemma_unset_filter_accepts_all(
    filters: Seq<HidDeviceFilter>,
    i: int,
    device: DeviceDescriptorView,
)
    requires
        0 <= i < filters.len(),
        filters[i].vendor_id.is_none(),
        filters[i].product_id.is_none(),
        filters[i].usage_page.is_none(),
        filters[i].usage.is_none(),
    ensures
        filters[i].accepts(device),
        any_accepts(filters, device),
{
}

/// A list of one filter that specifies only a vendor id accepts exactly the
/// devices of that vendor, whatever their other fields hold.
pub proof fn lemma_vendor_filter(vendor_id: u16, device: DeviceDescriptorView)
    ensures
        any_accepts(
            seq![
                (HidDeviceFilter {
                    vendor_id: Some(vendor_id),
                    product_id: None,
                    usage_page: None,
                    usage: None,
                }),
            ],
            device,
        ) <==> device.vendor_id == vendor_id,
{
    let filter = HidDeviceFilter {
        vendor_id: Some(vendor_id),
        product_id: None,
        usage_page: None,
        usage: None,
    };
    let filters = seq![filter];
    assert(filters[0] == filter);
    if device.vendor_id == vendor_id {
        assert(filters[0].accepts(device));
    }
}

/// A filter list accepts a device exactly when one of its filters does:
/// adding a filter to a list adds the devices which that filter accepts.
pub proof fn lemma_any_accepts_push(
    filters: Seq<HidDeviceFilter>,
    filter: HidDeviceFilter,
    device: DeviceDescriptorView,
)
    ensures
        any_accepts(filters.push(filter), device) <==> any_accepts(filters, device)
            || filter.accepts(device),
{
    let longer = filters.push(filter);
    if any_accepts(filters, device) {
        let i = choose|i: int| 0 <= i < filters.len() && (#[trigger] filters[i]).accepts(device);
        assert(longer[i] == filters[i]);
    }
    if filter.accepts(device) {
        assert(longer[filters.len() as int] == filter);
    }
    if any_accepts(longer, device) {
        let i = choose|i: int| 0 <= i < longer.len() && (#[trigger] longer[i]).accepts(device);
        if i < filters.len() {
            assert(filters[i] == longer[i]);
        }
    }
}

} // verus!
