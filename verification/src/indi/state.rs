//! What the INDI server has told about its devices.

use crate::indi::xml::{
    attribute, attribute_or, attribute_value, attribute_value_or, child_views,
    parse_xml, parseable, xml_of, ChildView, XmlChild, XmlMessage, XmlView,
};
use crate::text::{same_text, text_ends, trim, trimmed_text};
use crate::textmap::TextMap;
use vstd::prelude::*;

verus! {

/// A property of a device.
#[derive(Debug, Clone)]
pub struct IndiProperty {
    pub name: String,
    pub device: String,
    /// "Idle", "Ok", "Busy" or "Alert".
    pub state: String,
    pub timestamp: String,
    /// The value of each element.
    pub elements: TextMap<String>,
}

/// The texts of a property.
pub struct PropertyView {
    pub name: Seq<char>,
    pub device: Seq<char>,
    pub state: Seq<char>,
    pub timestamp: Seq<char>,
    pub elements: Map<Seq<char>, Seq<char>>,
}

/// The texts of a map of strings.
pub open spec fn text_values(m: Map<Seq<char>, String>) -> Map<Seq<char>, Seq<char>> {
    m.map_values(|s: String| s@)
}

impl View for IndiProperty {
    type V = PropertyView;

    open spec fn view(&self) -> PropertyView {
        PropertyView {
            name: self.name@,
            device: self.device@,
            state: self.state@,
            timestamp: self.timestamp@,
            elements: text_values(self.elements@),
        }
    }
}

impl IndiProperty {
    pub open spec fn wf(self) -> bool {
        self.elements.wf()
    }

    /// The element is the switch position "On".
    pub fn is_on(&self, element: &str) -> (r: bool)
        requires
            self.wf(),
        ensures
            r == is_on(self@, element@),
    {
        match self.elements.get(element) {
            Some(v) => same_text(v.as_str(), "On"),
            None => false,
        }
    }
}

/// The element is the switch position "On".
pub open spec fn is_on(p: PropertyView, element: Seq<char>) -> bool {
    p.elements.dom().contains(element) && p.elements[element] == "On"@
}

/// The properties of a device, by name.
pub type DeviceView = Map<Seq<char>, PropertyView>;

/// The texts of the properties of a device.
pub open spec fn device_view(m: Map<Seq<char>, IndiProperty>) -> DeviceView {
    m.map_values(|p: IndiProperty| p@)
}

/// Each property is well formed.
pub open spec fn device_wf(m: TextMap<IndiProperty>) -> bool {
    m.wf() && forall|k: Seq<char>| m@.dom().contains(k) ==> (#[trigger] m@[k]).wf()
}

/// The properties of all devices.
#[derive(Debug)]
pub struct IndiState {
    pub devices: TextMap<TextMap<IndiProperty>>,
}

impl View for IndiState {
    type V = Map<Seq<char>, DeviceView>;

    open spec fn view(&self) -> Map<Seq<char>, DeviceView> {
        self.devices@.map_values(|m: TextMap<IndiProperty>| device_view(m@))
    }
}

/// The elements that the first `n` child nodes set. Later ones override
/// earlier ones.
pub open spec fn elements_of(children: Seq<ChildView>, n: nat) -> Map<Seq<char>, Seq<char>>
    decreases n,
{
    if n == 0 {
        Map::empty()
    } else {
        let before = elements_of(children, (n - 1) as nat);
        let c = children[n - 1];
        match c.text {
            Some(text) => if c.is_element {
                before.insert(attribute_or(c.attributes, "name"@, ""@), trim(text))
            } else {
                before
            },
            None => before,
        }
    }
}

/// The property that a vector message sets.
pub open spec fn property_of(m: XmlView) -> PropertyView {
    PropertyView {
        name: attribute_or(m.attributes, "name"@, "unknown"@),
        device: attribute_or(m.attributes, "device"@, "unknown"@),
        state: attribute_or(m.attributes, "state"@, "Idle"@),
        timestamp: attribute_or(m.attributes, "timestamp"@, ""@),
        elements: elements_of(m.children, m.children.len()),
    }
}

/// The state behind a message.
pub open spec fn updated(s: Map<Seq<char>, DeviceView>, m: XmlView) -> Map<Seq<char>, DeviceView> {
    let device = attribute_or(m.attributes, "device"@, "unknown"@);
    if m.tag == "delProperty"@ {
        if s.dom().contains(device) {
            match attribute(m.attributes, "name"@) {
                Some(name) => s.insert(device, s[device].remove(name)),
                None => s.insert(device, Map::empty()),
            }
        } else {
            s
        }
    } else if m.tag == "message"@ {
        s
    } else if crate::text::ends(m.tag, "Vector"@) {
        let known = if s.dom().contains(device) {
            s[device]
        } else {
            Map::empty()
        };
        s.insert(device, known.insert(property_of(m).name, property_of(m)))
    } else {
        s
    }
}

/// The device and the text of a message for the user.
pub open spec fn told(m: XmlView) -> Option<(Seq<char>, Seq<char>)> {
    if m.tag == "message"@ && attribute_or(m.attributes, "message"@, ""@).len() > 0 {
        Some(
            (
                attribute_or(m.attributes, "device"@, "unknown"@),
                attribute_or(m.attributes, "message"@, ""@),
            ),
        )
    } else {
        None
    }
}

/// The elements that the child nodes set.
fn read_elements(children: &Vec<XmlChild>) -> (r: TextMap<String>)
    ensures
        r.wf(),
        text_values(r@) == elements_of(child_views(children@), children@.len()),
{
    let mut out: TextMap<String> = TextMap::new();
    let ghost all = child_views(children@);
    assert(text_values(out@) =~= elements_of(all, 0));
    for i in 0..children.len()
        invariant
            out.wf(),
            all == child_views(children@),
            text_values(out@) == elements_of(all, i as nat),
    {
        let c = &children[i];
        assert(all[i as int] == c@);
        if c.is_element {
            let name = attribute_value_or(&c.attributes, "name", "");
            match &c.text {
                Some(text) => {
                    let value = trimmed_text(text.as_str());
                    let ghost before = out@;
                    let ghost key = name@;
                    let ghost v = value;
                    out.insert(name, value);
                    assert(text_values(out@) =~= text_values(before).insert(key, v@));
                },
                None => {},
            }
        }
    }
    out
}

impl IndiState {
    pub open spec fn wf(self) -> bool {
        self.devices.wf() && forall|d: Seq<char>|
            self.devices@.dom().contains(d) ==> device_wf(#[trigger] self.devices@[d])
    }

    /// Nothing is known of any device.
    pub fn new() -> (r: IndiState)
        ensures
            r.wf(),
            r@ == Map::<Seq<char>, DeviceView>::empty(),
    {
        let r = IndiState { devices: TextMap::new() };
        assert(r@ =~= Map::<Seq<char>, DeviceView>::empty());
        r
    }

    /// The property of a device.
    pub fn property(&self, device: &str, name: &str) -> (r: Option<&IndiProperty>)
        requires
            self.wf(),
        ensures
            match r {
                Some(p) => p.wf() && known_property(self@, device@, name@) == Some(p@),
                None => known_property(self@, device@, name@) is None,
            },
    {
        match self.devices.get(device) {
            Some(m) => match m.get(name) {
                Some(p) => Some(p),
                None => None,
            },
            None => None,
        }
    }

    fn put(&mut self, device: String, properties: TextMap<IndiProperty>)
        requires
            old(self).wf(),
            device_wf(properties),
        ensures
            final(self).wf(),
            final(self)@ == old(self)@.insert(device@, device_view(properties@)),
    {
        let ghost before = self.devices@;
        self.devices.insert(device, properties);
        assert(self@ =~= before.map_values(
            |m: TextMap<IndiProperty>| device_view(m@),
        ).insert(device@, device_view(properties@)));
    }

    /// Takes a device out of the state, to be put back.
    fn take_device(&mut self, device: &str) -> (r: Option<TextMap<IndiProperty>>)
        requires
            old(self).wf(),
        ensures
            final(self).wf(),
            final(self)@ == old(self)@.remove(device@),
            match r {
                Some(m) => device_wf(m) && old(self)@.dom().contains(device@) && old(
                    self,
                )@[device@] == device_view(m@),
                None => !old(self)@.dom().contains(device@),
            },
    {
        let ghost before = *self;
        let r = self.devices.remove(device);
        assert(self@ =~= before@.remove(device@));
        r
    }

    /// Takes a message in. Returns the device and the text of a message for
    /// the user.
    pub fn apply(&mut self, m: &XmlMessage) -> (r: Option<(String, String)>)
        requires
            old(self).wf(),
        ensures
            final(self).wf(),
            final(self)@ == updated(old(self)@, m@),
            match r {
                Some((device, text)) => told(m@) == Some((device@, text@)),
                None => told(m@) is None,
            },
    {
        let ghost before = self@;
        let tag = m.tag.as_str();
        if same_text(tag, "delProperty") {
            let device = attribute_value_or(&m.attributes, "device", "unknown");
            proof {
                lemma_tags_differ();
            }
            match self.take_device(device.as_str()) {
                Some(properties) => {
                    let mut properties = properties;
                    let ghost was = device_view(properties@);
                    match attribute_value(&m.attributes, "name") {
                        Some(name) => {
                            let _ = properties.remove(name.as_str());
                            assert(device_view(properties@) =~= was.remove(name@));
                        },
                        None => {
                            properties.clear();
                            assert(device_view(properties@) =~= Map::<
                                Seq<char>,
                                PropertyView,
                            >::empty());
                        },
                    }
                    let ghost name = device@;
                    let ghost now = device_view(properties@);
                    self.put(device, properties);
                    assert(before.remove(name).insert(name, now) =~= before.insert(name, now));
                },
                None => {
                    assert(before.remove(device@) =~= before);
                },
            }
            return None;
        }
        if same_text(tag, "message") {
            let device = attribute_value_or(&m.attributes, "device", "unknown");
            let text = attribute_value_or(&m.attributes, "message", "");
            if text.as_str().is_empty() {
                return None;
            }
            return Some((device, text));
        }
        if text_ends(tag, "Vector") {
            let device = attribute_value_or(&m.attributes, "device", "unknown");
            let name = attribute_value_or(&m.attributes, "name", "unknown");
            let property = IndiProperty {
                name: name.clone(),
                device: device.clone(),
                state: attribute_value_or(&m.attributes, "state", "Idle"),
                timestamp: attribute_value_or(&m.attributes, "timestamp", ""),
                elements: read_elements(&m.children),
            };
            assert(property@ == property_of(m@));
            let mut properties = match self.take_device(device.as_str()) {
                Some(p) => p,
                None => TextMap::new(),
            };
            let ghost known = if before.dom().contains(device@) {
                before[device@]
            } else {
                Map::empty()
            };
            assert(device_view(properties@) =~= known);
            let ghost key = device@;
            let ghost id = name@;
            let ghost p = property;
            let ghost was = properties@;
            properties.insert(name, property);
            assert(device_view(properties@) =~= known.insert(id, p@));
            let ghost now = device_view(properties@);
            self.put(device, properties);
            assert(before.remove(key).insert(key, now) =~= before.insert(key, now));
        }
        None
    }

    /// Takes the text of a message in. Returns the device and the text of a
    /// message for the user, or why the text is no message.
    pub fn process_indi_message(&mut self, xml: &str) -> (r: Result<
        Option<(String, String)>,
        String,
    >)
        requires
            old(self).wf(),
            parseable(xml@),
        ensures
            final(self).wf(),
            match (r, xml_of(xml@)) {
                (Ok(Some((device, text))), Ok(m)) => {
                    &&& final(self)@ == updated(old(self)@, m)
                    &&& told(m) == Some((device@, text@))
                },
                (Ok(None), Ok(m)) => final(self)@ == updated(old(self)@, m) && told(m) is None,
                (Err(e), Err(why)) => final(self)@ == old(self)@ && e@ == why,
                _ => false,
            },
    {
        match parse_xml(xml) {
            Ok(m) => Ok(self.apply(&m)),
            Err(e) => Err(e),
        }
    }
}

/// The property of a device, where it is known.
pub open spec fn known_property(
    s: Map<Seq<char>, DeviceView>,
    device: Seq<char>,
    name: Seq<char>,
) -> Option<PropertyView> {
    if s.dom().contains(device) && s[device].dom().contains(name) {
        Some(s[device][name])
    } else {
        None
    }
}

// ---------------------------------------------------------------------------
// Laws
// ---------------------------------------------------------------------------

/// A vector message sets its property and leaves all others as they are.
pub proof fn law_vector_sets_its_property(
    s: Map<Seq<char>, DeviceView>,
    m: XmlView,
    device: Seq<char>,
    name: Seq<char>,
)
    requires
        crate::text::ends(m.tag, "Vector"@),
        m.tag != "delProperty"@,
        m.tag != "message"@,
    ensures
        known_property(updated(s, m), device, name) == if device == property_of(m).device && name
            == property_of(m).name {
            Some(property_of(m))
        } else {
            known_property(s, device, name)
        },
{
}

/// The child sets the element.
pub open spec fn sets(c: ChildView, element: Seq<char>) -> bool {
    c.is_element && c.text is Some && attribute_or(c.attributes, "name"@, ""@) == element
}

proof fn lemma_elements(children: Seq<ChildView>, n: nat, element: Seq<char>)
    requires
        n <= children.len(),
    ensures
        elements_of(children, n).dom().contains(element) <==> exists|i: int|
            0 <= i < n && sets(#[trigger] children[i], element),
        forall|i: int|
            0 <= i < n && sets(#[trigger] children[i], element) && (forall|j: int|
                i < j < n ==> !sets(#[trigger] children[j], element)) ==> elements_of(
                children,
                n,
            )[element] == trim(children[i].text->0),
    decreases n,
{
    if n > 0 {
        let m = (n - 1) as nat;
        lemma_elements(children, m, element);
        let c = children[n - 1];
        if sets(c, element) {
            assert(elements_of(children, n).dom().contains(element));
        } else {
            assert(elements_of(children, n).dom().contains(element) == elements_of(
                children,
                m,
            ).dom().contains(element));
        }
        assert forall|i: int|
            0 <= i < n && sets(#[trigger] children[i], element) && (forall|j: int|
                i < j < n ==> !sets(#[trigger] children[j], element)) implies elements_of(
            children,
            n,
        )[element] == trim(children[i].text->0) by {
            if i < n - 1 {
                assert(!sets(children[n - 1], element));
                assert(elements_of(children, n)[element] == elements_of(children, m)[element]);
            }
        }
    }
}

/// Behind a vector message, an element of its property is known where a child of
/// the message sets it, and it holds what the last such child says, without
/// white space around it. The property is in the state that the message says,
/// or idle.
pub proof fn law_vector_tells_its_elements(
    s: Map<Seq<char>, DeviceView>,
    m: XmlView,
    device: Seq<char>,
    name: Seq<char>,
    element: Seq<char>,
    i: int,
)
    requires
        crate::text::ends(m.tag, "Vector"@),
        m.tag != "delProperty"@,
        m.tag != "message"@,
        attribute(m.attributes, "device"@) == Some(device),
        attribute(m.attributes, "name"@) == Some(name),
    ensures
        ({
            let p = known_property(updated(s, m), device, name);
            &&& p is Some
            &&& p->0.elements.dom().contains(element) <==> exists|k: int|
                0 <= k < m.children.len() && sets(#[trigger] m.children[k], element)
            &&& 0 <= i < m.children.len() && sets(m.children[i], element) && (forall|j: int|
                i < j < m.children.len() ==> !sets(#[trigger] m.children[j], element))
                ==> p->0.elements[element] == trim(m.children[i].text->0)
            &&& p->0.state == match attribute(m.attributes, "state"@) {
                Some(state) => state,
                None => "Idle"@,
            }
        }),
{
    lemma_elements(m.children, m.children.len(), element);
}

/// A deletion with a name removes that property and no other.
pub proof fn law_deletion_removes_its_property(
    s: Map<Seq<char>, DeviceView>,
    m: XmlView,
    device: Seq<char>,
    name: Seq<char>,
)
    requires
        m.tag == "delProperty"@,
    ensures
        known_property(updated(s, m), device, name) == if device == attribute_or(
            m.attributes,
            "device"@,
            "unknown"@,
        ) && (attribute(m.attributes, "name"@) is None || attribute(m.attributes, "name"@) == Some(
            name,
        )) {
            None
        } else {
            known_property(s, device, name)
        },
{
}

/// A message that is neither a vector nor a deletion changes nothing.
pub proof fn law_other_messages_change_nothing(s: Map<Seq<char>, DeviceView>, m: XmlView)
    requires
        m.tag == "message"@ || (m.tag != "delProperty"@ && !crate::text::ends(m.tag, "Vector"@)),
    ensures
        updated(s, m) == s,
{
    lemma_tags_differ();
}

proof fn lemma_tags_differ()
    ensures
        "delProperty"@ != "message"@,
{
    reveal_strlit("delProperty");
    reveal_strlit("message");
    assert("delProperty"@.len() != "message"@.len());
}

} // verus!
