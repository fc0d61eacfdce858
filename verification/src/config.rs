//! The configuration of the accessory server, and what it advertises.

use vstd::prelude::*;
use vstd::string::*;
use crate::text::{decimal_digits, is_digit, to_decimal};

verus! {

/// The configuration of the accessory server.
#[derive(Debug)]
pub struct Config {
    /// The name under which the accessory is advertised.
    pub name: String,
    /// The model of the accessory.
    pub model: String,
    /// The pairing id of the accessory, as colon-separated hex.
    pub device_id: String,
    /// The TCP port of the server.
    pub port: u16,
    /// The setup code, eight digits in the form `XXX-XX-XXX`.
    pub pin: String,
    /// The setup id, four characters.
    pub setup_id: String,
    /// The number of the accessory's category.
    pub category: u8,
    /// The configuration number `c#`, which grows whenever the accessory
    /// database or the pairings change.
    pub configuration_number: u64,
    /// The state number `s#`, which is always 1.
    pub state_number: u64,
}

/// The mathematical model of a [`Config`].
pub struct ConfigView {
    pub name: Seq<char>,
    pub model: Seq<char>,
    pub device_id: Seq<char>,
    pub port: u16,
    pub pin: Seq<char>,
    pub setup_id: Seq<char>,
    pub category: u8,
    pub configuration_number: u64,
    pub state_number: u64,
}

impl View for Config {
    type V = ConfigView;

    open spec fn view(&self) -> ConfigView {
        ConfigView {
            name: self.name@,
            model: self.model@,
            device_id: self.device_id@,
            port: self.port,
            pin: self.pin@,
            setup_id: self.setup_id@,
            category: self.category,
            configuration_number: self.configuration_number,
            state_number: self.state_number,
        }
    }
}

impl Default for Config {
    /// An accessory of the category 1 (other) on port 32000, with the setup
    /// code `111-22-333`, and the configuration number 1.
    fn default() -> (config: Config)
        ensures
            config@ == (ConfigView {
                name: "Accessory"@,
                model: "Accessory"@,
                device_id: "00:00:00:00:00:00"@,
                port: 32000,
                pin: "111-22-333"@,
                setup_id: "0000"@,
                category: 1,
                configuration_number: 1,
                state_number: 1,
            }),
    {
        Config {
            name: "Accessory".to_owned(),
            model: "Accessory".to_owned(),
            device_id: "00:00:00:00:00:00".to_owned(),
            port: 32000,
            pin: "111-22-333".to_owned(),
            setup_id: "0000".to_owned(),
            category: 1,
            configuration_number: 1,
            state_number: 1,
        }
    }
}

/// Whether the text is a setup code: eight digits in the form `XXX-XX-XXX`.
pub open spec fn is_pin(pin: Seq<char>) -> bool {
    &&& pin.len() == 10
    &&& forall|i: int| 0 <= i < 10 ==> (if i == 3 || i == 6 {
        pin[i] == '-'
    } else {
        is_digit(#[trigger] pin[i])
    })
}

/// Whether the text is a setup code.
pub fn valid_pin(pin: &str) -> (valid: bool)
    ensures
        valid == is_pin(pin@),
{
    if pin.unicode_len() != 10 {
        return false;
    }
    let mut i: usize = 0;
    while i < 10
        invariant
            0 <= i <= 10,
            pin@.len() == 10,
            forall|j: int|
                0 <= j < i ==> (if j == 3 || j == 6 {
                    pin@[j] == '-'
                } else {
                    is_digit(#[trigger] pin@[j])
                }),
        decreases 10 - i,
    {
        let c = pin.get_char(i);
        if i == 3 || i == 6 {
            if c != '-' {
                return false;
            }
        } else if c < '0' || c > '9' {
            assert(!is_digit(pin@[i as int]));
            return false;
        }
        i += 1;
    }
    true
}

/// The status flag `sf` of the advertisement: 1 while no controller is
/// paired, 0 otherwise.
pub open spec fn status_flag(paired: bool) -> Seq<char> {
    if paired {
        "0"@
    } else {
        "1"@
    }
}

/// The TXT records of the `_hap._tcp` advertisement: the model, the protocol
/// version 1.0, the pairing id of the accessory, the configuration number,
/// the state number, the status flag, the feature flag 0 and the number of
/// the category.
pub open spec fn txt_records_of(config: ConfigView, paired: bool) -> Seq<(Seq<char>, Seq<char>)> {
    seq![
        ("md"@, config.model),
        ("pv"@, "1.0"@),
        ("id"@, config.device_id),
        ("c#"@, decimal_digits(config.configuration_number as nat)),
        ("s#"@, decimal_digits(config.state_number as nat)),
        ("sf"@, status_flag(paired)),
        ("ff"@, "0"@),
        ("ci"@, decimal_digits(config.category as nat)),
    ]
}

impl Config {
    /// The TXT records of the advertisement, given whether a controller is
    /// paired.
    pub fn txt_records(&self, paired: bool) -> (records: Vec<(String, String)>)
        ensures
            crate::transport::http::uri::pairs_view(records@) == txt_records_of(self@, paired),
    {
        let mut records: Vec<(String, String)> = Vec::new();
        records.push(("md".to_owned(), self.model.clone()));
        records.push(("pv".to_owned(), "1.0".to_owned()));
        records.push(("id".to_owned(), self.device_id.clone()));
        records.push(("c#".to_owned(), to_decimal(self.configuration_number)));
        records.push(("s#".to_owned(), to_decimal(self.state_number)));
        records.push(
            (
                "sf".to_owned(),
                if paired {
                    "0".to_owned()
                } else {
                    "1".to_owned()
                },
            ),
        );
        records.push(("ff".to_owned(), "0".to_owned()));
        records.push(("ci".to_owned(), to_decimal(self.category as u64)));
        assert(crate::transport::http::uri::pairs_view(records@) =~= txt_records_of(self@, paired));
        records
    }

    /// Counts a change of the accessory database or of the pairings: the
    /// configuration number grows by one.
    pub fn bump_configuration_number(&mut self)
        requires
            old(self).configuration_number < u64::MAX,
        ensures
            final(self)@ == (ConfigView {
                configuration_number: (old(self).configuration_number + 1) as u64,
                ..old(self)@
            }),
    {
        self.configuration_number = self.configuration_number + 1;
    }
}

} // verus!
