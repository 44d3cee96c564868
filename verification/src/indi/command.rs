//! The texts of INDI commands.

use vstd::prelude::*;

verus! {

/// The command that asks for all properties.
pub open spec fn get_properties() -> Seq<char> {
    "<getProperties version=\"1.7\" />"@
}

/// The command that asks for all properties.
pub fn get_properties_command() -> (r: String)
    ensures
        r@ == get_properties(),
{
    "<getProperties version=\"1.7\" />".to_owned()
}

/// A switch and its position.
#[derive(Debug, Clone, Copy)]
pub struct Switch<'a> {
    pub name: &'a str,
    pub on: bool,
}

/// The names and positions of switches.
pub open spec fn switch_views(s: Seq<Switch>) -> Seq<(Seq<char>, bool)> {
    Seq::new(s.len(), |i: int| (s[i].name@, s[i].on))
}

/// The lines of the first `n` switches.
pub open spec fn switch_lines(switches: Seq<(Seq<char>, bool)>, n: nat) -> Seq<char>
    decreases n,
{
    if n == 0 {
        Seq::empty()
    } else {
        switch_lines(switches, (n - 1) as nat) + "  <oneSwitch name=\""@ + switches[n - 1].0
            + "\">"@ + if switches[n - 1].1 {
            "On"@
        } else {
            "Off"@
        } + "</oneSwitch>\n"@
    }
}

/// The command that sets switches.
pub open spec fn switch_vector(
    device: Seq<char>,
    name: Seq<char>,
    switches: Seq<(Seq<char>, bool)>,
) -> Seq<char> {
    "<newSwitchVector device=\""@ + device + "\" name=\""@ + name + "\">\n"@ + switch_lines(
        switches,
        switches.len(),
    ) + "</newSwitchVector>\n"@
}

/// The command that sets switches.
pub fn switch_command(device: &str, name: &str, switches: &[Switch]) -> (r: String)
    ensures
        r@ == switch_vector(device@, name@, switch_views(switches@)),
{
    let mut lines = "".to_owned();
    let ghost all = switch_views(switches@);
    proof {
        reveal_strlit("");
    }
    assert(lines@ =~= switch_lines(all, 0));
    for i in 0..switches.len()
        invariant
            all == switch_views(switches@),
            lines@ == switch_lines(all, i as nat),
    {
        lines.append("  <oneSwitch name=\"");
        lines.append(switches[i].name);
        lines.append("\">");
        lines.append(
            if switches[i].on {
                "On"
            } else {
                "Off"
            },
        );
        lines.append("</oneSwitch>\n");
    }
    let mut xml = "<newSwitchVector device=\"".to_owned();
    xml.append(device);
    xml.append("\" name=\"");
    xml.append(name);
    xml.append("\">\n");
    xml.append(lines.as_str());
    xml.append("</newSwitchVector>\n");
    xml
}

/// A number with its name. The value is text with ten decimals.
#[derive(Debug, Clone, Copy)]
pub struct Number<'a> {
    pub name: &'a str,
    pub value: &'a str,
}

/// The names and values of numbers.
pub open spec fn number_views(s: Seq<Number>) -> Seq<(Seq<char>, Seq<char>)> {
    Seq::new(s.len(), |i: int| (s[i].name@, s[i].value@))
}

/// The lines of the first `n` numbers.
pub open spec fn number_lines(numbers: Seq<(Seq<char>, Seq<char>)>, n: nat) -> Seq<char>
    decreases n,
{
    if n == 0 {
        Seq::empty()
    } else {
        number_lines(numbers, (n - 1) as nat) + "  <oneNumber name=\""@ + numbers[n - 1].0
            + "\">"@ + numbers[n - 1].1 + "</oneNumber>\n"@
    }
}

/// The command that sets numbers.
pub open spec fn number_vector(
    device: Seq<char>,
    name: Seq<char>,
    numbers: Seq<(Seq<char>, Seq<char>)>,
) -> Seq<char> {
    "<newNumberVector device=\""@ + device + "\" name=\""@ + name + "\">\n"@ + number_lines(
        numbers,
        numbers.len(),
    ) + "</newNumberVector>\n"@
}

/// The command that sets numbers.
pub fn number_command(device: &str, name: &str, numbers: &[Number]) -> (r: String)
    ensures
        r@ == number_vector(device@, name@, number_views(numbers@)),
{
    let mut lines = "".to_owned();
    let ghost all = number_views(numbers@);
    proof {
        reveal_strlit("");
    }
    assert(lines@ =~= number_lines(all, 0));
    for i in 0..numbers.len()
        invariant
            all == number_views(numbers@),
            lines@ == number_lines(all, i as nat),
    {
        lines.append("  <oneNumber name=\"");
        lines.append(numbers[i].name);
        lines.append("\">");
        lines.append(numbers[i].value);
        lines.append("</oneNumber>\n");
    }
    let mut xml = "<newNumberVector device=\"".to_owned();
    xml.append(device);
    xml.append("\" name=\"");
    xml.append(name);
    xml.append("\">\n");
    xml.append(lines.as_str());
    xml.append("</newNumberVector>\n");
    xml
}

/// The command that sets the clock of a device.
pub open spec fn time_vector(device: Seq<char>, utc: Seq<char>) -> Seq<char> {
    "<newTextVector device=\""@ + device + "\" name=\"TIME_UTC\">\n  <oneText name=\"UTC\">"@ + utc
        + "</oneText>\n  <oneText name=\"OFFSET\">0.0</oneText>\n</newTextVector>\n"@
}

/// The command that sets the clock of a device.
pub fn time_command(device: &str, utc: &str) -> (r: String)
    ensures
        r@ == time_vector(device@, utc@),
{
    let mut xml = "<newTextVector device=\"".to_owned();
    xml.append(device);
    xml.append("\" name=\"TIME_UTC\">\n  <oneText name=\"UTC\">");
    xml.append(utc);
    xml.append("</oneText>\n  <oneText name=\"OFFSET\">0.0</oneText>\n</newTextVector>\n");
    xml
}

/// The command that sets a pair of switches.
pub fn two_switches(device: &str, name: &str, a: Switch, b: Switch) -> (r: String)
    ensures
        r@ == switch_vector(device@, name@, seq![(a.name@, a.on), (b.name@, b.on)]),
{
    let mut v: Vec<Switch> = Vec::new();
    v.push(a);
    v.push(b);
    assert(switch_views(v@) =~= seq![(a.name@, a.on), (b.name@, b.on)]);
    switch_command(device, name, v.as_slice())
}

/// The command that sets three switches.
pub fn three_switches(device: &str, name: &str, a: Switch, b: Switch, c: Switch) -> (r: String)
    ensures
        r@ == switch_vector(
            device@,
            name@,
            seq![(a.name@, a.on), (b.name@, b.on), (c.name@, c.on)],
        ),
{
    let mut v: Vec<Switch> = Vec::new();
    v.push(a);
    v.push(b);
    v.push(c);
    assert(switch_views(v@) =~= seq![(a.name@, a.on), (b.name@, b.on), (c.name@, c.on)]);
    switch_command(device, name, v.as_slice())
}

proof fn lemma_same_switches(
    a: Seq<(Seq<char>, bool)>,
    b: Seq<(Seq<char>, bool)>,
    n: nat,
)
    requires
        n <= a.len(),
        n <= b.len(),
        forall|i: int| 0 <= i < n ==> a[i] == b[i],
    ensures
        switch_lines(a, n) == switch_lines(b, n),
    decreases n,
{
    if n > 0 {
        lemma_same_switches(a, b, (n - 1) as nat);
    }
}

proof fn lemma_same_numbers(
    a: Seq<(Seq<char>, Seq<char>)>,
    b: Seq<(Seq<char>, Seq<char>)>,
    n: nat,
)
    requires
        n <= a.len(),
        n <= b.len(),
        forall|i: int| 0 <= i < n ==> a[i] == b[i],
    ensures
        number_lines(a, n) == number_lines(b, n),
    decreases n,
{
    if n > 0 {
        lemma_same_numbers(a, b, (n - 1) as nat);
    }
}

/// A command names the device and the property, and sets each switch in a line
/// of its own, to "On" or to "Off".
pub proof fn law_switches_have_their_lines(
    device: Seq<char>,
    property: Seq<char>,
    before: Seq<(Seq<char>, bool)>,
    element: Seq<char>,
)
    ensures
        ({
            let head = "<newSwitchVector device=\""@ + device + "\" name=\""@ + property
                + "\">\n"@;
            let tail = "</newSwitchVector>\n"@;
            let lines = switch_lines(before, before.len());
            &&& before.len() == 0 ==> lines.len() == 0
            &&& switch_vector(device, property, before) == head + lines + tail
            &&& switch_vector(device, property, before.push((element, true))) == head + (lines
                + "  <oneSwitch name=\""@ + element + "\">On</oneSwitch>\n"@) + tail
            &&& switch_vector(device, property, before.push((element, false))) == head + (lines
                + "  <oneSwitch name=\""@ + element + "\">Off</oneSwitch>\n"@) + tail
        }),
{
    let n = before.len();
    let on = before.push((element, true));
    let off = before.push((element, false));
    let lines = switch_lines(before, n);
    reveal_strlit("\">");
    reveal_strlit("On");
    reveal_strlit("Off");
    reveal_strlit("</oneSwitch>\n");
    reveal_strlit("\">On</oneSwitch>\n");
    reveal_strlit("\">Off</oneSwitch>\n");
    lemma_same_switches(before, on, n);
    lemma_same_switches(before, off, n);
    assert(switch_lines(on, n + 1) =~= lines + "  <oneSwitch name=\""@ + element
        + "\">On</oneSwitch>\n"@);
    assert(switch_lines(off, n + 1) =~= lines + "  <oneSwitch name=\""@ + element
        + "\">Off</oneSwitch>\n"@);
}

/// A command names the device and the property, and sets each number in a line
/// of its own.
pub proof fn law_numbers_have_their_lines(
    device: Seq<char>,
    property: Seq<char>,
    before: Seq<(Seq<char>, Seq<char>)>,
    element: Seq<char>,
    value: Seq<char>,
)
    ensures
        ({
            let head = "<newNumberVector device=\""@ + device + "\" name=\""@ + property
                + "\">\n"@;
            let tail = "</newNumberVector>\n"@;
            let lines = number_lines(before, before.len());
            &&& before.len() == 0 ==> lines.len() == 0
            &&& number_vector(device, property, before) == head + lines + tail
            &&& number_vector(device, property, before.push((element, value))) == head + (lines
                + "  <oneNumber name=\""@ + element + "\">"@ + value + "</oneNumber>\n"@) + tail
        }),
{
    let n = before.len();
    let more = before.push((element, value));
    let lines = number_lines(before, n);
    lemma_same_numbers(before, more, n);
    assert(number_lines(more, n + 1) =~= lines + "  <oneNumber name=\""@ + element + "\">"@ + value
        + "</oneNumber>\n"@);
}

/// The command that sets the clock tells the time once, and no offset from it.
pub proof fn law_time_is_sent(device: Seq<char>, utc: Seq<char>)
    ensures
        time_vector(device, utc) == "<newTextVector device=\""@ + device
            + "\" name=\"TIME_UTC\">\n"@ + "  <oneText name=\"UTC\">"@ + utc + "</oneText>\n"@
            + "  <oneText name=\"OFFSET\">0.0</oneText>\n"@ + "</newTextVector>\n"@,
        get_properties() == "<getProperties version=\"1.7\" />"@,
{
    reveal_strlit("\" name=\"TIME_UTC\">\n");
    reveal_strlit("  <oneText name=\"UTC\">");
    reveal_strlit("\" name=\"TIME_UTC\">\n  <oneText name=\"UTC\">");
    reveal_strlit("</oneText>\n");
    reveal_strlit("  <oneText name=\"OFFSET\">0.0</oneText>\n");
    reveal_strlit("</newTextVector>\n");
    reveal_strlit("</oneText>\n  <oneText name=\"OFFSET\">0.0</oneText>\n</newTextVector>\n");
    assert("\" name=\"TIME_UTC\">\n"@ + "  <oneText name=\"UTC\">"@
        =~= "\" name=\"TIME_UTC\">\n  <oneText name=\"UTC\">"@);
    assert("</oneText>\n"@ + "  <oneText name=\"OFFSET\">0.0</oneText>\n"@ + "</newTextVector>\n"@
        =~= "</oneText>\n  <oneText name=\"OFFSET\">0.0</oneText>\n</newTextVector>\n"@);
    assert(time_vector(device, utc) =~= "<newTextVector device=\""@ + device
        + ("\" name=\"TIME_UTC\">\n"@ + "  <oneText name=\"UTC\">"@) + utc + ("</oneText>\n"@
        + "  <oneText name=\"OFFSET\">0.0</oneText>\n"@ + "</newTextVector>\n"@));
    assert(time_vector(device, utc) =~= "<newTextVector device=\""@ + device
        + "\" name=\"TIME_UTC\">\n"@ + "  <oneText name=\"UTC\">"@ + utc + "</oneText>\n"@
        + "  <oneText name=\"OFFSET\">0.0</oneText>\n"@ + "</newTextVector>\n"@);
}

} // verus!
