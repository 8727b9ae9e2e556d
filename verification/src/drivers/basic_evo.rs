//! A gas sensor on the serial line that speaks a framed ASCII protocol: a
//! colon, hexadecimal fields, and a checksum of two hexadecimal digits.

use vstd::prelude::*;
use vstd::slice::slice_to_vec;
use vstd::string::StringSliceAdditionalSpecFns;
use vstd::utf8::encode_utf8;
use crate::board::RRIVBoard;
use crate::drivers::codec::{
    get_unsigned,
    le_bytes,
    le_value,
    lemma_le_bytes_len,
    lemma_le_round_trip,
    lemma_radix_values,
    put_bytes,
    put_unsigned,
    put_zeros,
    zeros,
};
use crate::drivers::resources::gpio::GpioRequest;
use crate::drivers::types::{
    agrees,
    copy_config_into_partition,
    identifier_from,
    lemma_both_partitions,
    partition_from,
    read_text,
    read_unsigned,
    text_field,
    unsigned_field,
    CalibrationPair,
    ModbusResponse,
    SensorDriver,
    SensorDriverGeneralConfiguration,
    SENSOR_SETTINGS_PARTITION_SIZE,
};
use crate::registry::{driver_name, name_from_type_id};
use crate::util::{
    ascii_lowercase,
    checksum,
    checksum_of,
    find_nul,
    hex_field,
    hex_padded,
    lemma_lowercase_text,
    lowercase_equals,
    push_hex,
    read_hex,
    sanitized,
    str_from_utf8,
    until_nul,
};
use crate::values::{
    lookup,
    number_from_unsigned,
    unsigned_number,
    ConfigurationValues,
    Field,
    FieldValue,
    FieldView,
};

verus! {

/// The command that reads registers.
pub const READ_COMMAND: u32 = 0x03;

/// The command that writes one register.
pub const WRITE_COMMAND: u32 = 0x06;

/// The address of a sensor as it is shipped.
pub const DEFAULT_DEVICE_ADDRESS: u32 = 0x34;

/// Number of register values that the driver keeps.
pub const REGISTER_CAPACITY: usize = 16;

/// The longitudinal redundancy check of the bytes of `_message`.
pub fn checksum_calculator(_message: String) -> (crc: u32)
    ensures
        crc == checksum(encode_utf8(_message@)),
{
    checksum_of(_message.as_str().as_bytes())
}

/// What the driver persists. The numbers are of 32 bits, the width of the
/// target's machine word.
#[derive(Clone, Copy, Debug)]
pub struct BasicEvoSpecialConfiguration {
    pub device_address: u32,
    /// `READ_COMMAND` or `WRITE_COMMAND`.
    pub command: u32,
    /// First register that a read asks for.
    pub start_address: u32,
    /// Number of registers that a read asks for.
    pub no_of_registers: u32,
    /// The register that a write sets.
    pub reg_address: u32,
    /// The value that a write sets it to.
    pub reg_value: u32,
    /// 0 manual, 1 read the concentration, 2 write the zero reference, 3 write
    /// the span reference, 4 read the device information.
    pub mode: u32,
}

/// How the command is read from its field.
pub open spec fn command_field(value: FieldView) -> Result<u32, Seq<char>> {
    match text_field(value, "command must be \"read\" or \"write\""@) {
        Ok(text) => if ascii_lowercase(text) == "read".spec_bytes() {
            Ok(READ_COMMAND)
        } else if ascii_lowercase(text) == "write".spec_bytes() {
            Ok(WRITE_COMMAND)
        } else {
            Err("invalid command"@)
        },
        Err(message) => Err(message),
    }
}

/// How the mode is read from its field. A name that is none of the modes is
/// refused.
pub open spec fn mode_field(value: FieldView) -> Result<u32, Seq<char>> {
    match text_field(value, "mode is required"@) {
        Ok(text) => if ascii_lowercase(text) == "manual".spec_bytes() {
            Ok(0)
        } else if ascii_lowercase(text) == "read_conc".spec_bytes() {
            Ok(1)
        } else if ascii_lowercase(text) == "write_zero".spec_bytes() {
            Ok(2)
        } else if ascii_lowercase(text) == "write_span".spec_bytes() {
            Ok(3)
        } else if ascii_lowercase(text) == "device_info".spec_bytes() {
            Ok(4)
        } else {
            Err("invalid mode"@)
        },
        Err(message) => Err(message),
    }
}

/// The configuration that the fields of a command give, or the error of the
/// first field that is refused. The fields are read in the order
/// `device_address`, `command`, `start_address`, `no_of_registers`,
/// `reg_address`, `reg_value`, `mode`.
pub open spec fn parsed(fields: Seq<Field>) -> Result<BasicEvoSpecialConfiguration, Seq<char>> {
    let device_address = unsigned_field(
        lookup(fields, "device_address"@),
        0x34,
        "invalid device address"@,
        Some("device address is required"@),
    );
    let command = command_field(lookup(fields, "command"@));
    let start_address = unsigned_field(
        lookup(fields, "start_address"@),
        0x80,
        "invalid start address"@,
        Some("start address is required"@),
    );
    let no_of_registers = unsigned_field(
        lookup(fields, "no_of_registers"@),
        2,
        "invalid number of registers"@,
        Some("number of registers is required"@),
    );
    let reg_address = unsigned_field(
        lookup(fields, "reg_address"@),
        1,
        "invalid register address"@,
        Some("register address is required"@),
    );
    let reg_value = unsigned_field(
        lookup(fields, "reg_value"@),
        1,
        "invalid register value"@,
        Some("register value is required"@),
    );
    let mode = mode_field(lookup(fields, "mode"@));
    if device_address is Err {
        Err(device_address->Err_0)
    } else if command is Err {
        Err(command->Err_0)
    } else if start_address is Err {
        Err(start_address->Err_0)
    } else if no_of_registers is Err {
        Err(no_of_registers->Err_0)
    } else if reg_address is Err {
        Err(reg_address->Err_0)
    } else if reg_value is Err {
        Err(reg_value->Err_0)
    } else if mode is Err {
        Err(mode->Err_0)
    } else {
        Ok(
            BasicEvoSpecialConfiguration {
                device_address: device_address->Ok_0,
                command: command->Ok_0,
                start_address: start_address->Ok_0,
                no_of_registers: no_of_registers->Ok_0,
                reg_address: reg_address->Ok_0,
                reg_value: reg_value->Ok_0,
                mode: mode->Ok_0,
            },
        )
    }
}

/// The name of a command in a configuration report.
pub open spec fn command_name(command: u32) -> Seq<char> {
    if command == READ_COMMAND {
        "read"@
    } else if command == WRITE_COMMAND {
        "write"@
    } else {
        "unknown"@
    }
}

/// The name of a mode in a configuration report.
pub open spec fn mode_name(mode: u32) -> Seq<char> {
    if mode == 1 {
        "read_conc"@
    } else if mode == 2 {
        "write_zero"@
    } else if mode == 3 {
        "write_span"@
    } else if mode == 4 {
        "device_info"@
    } else {
        "manual"@
    }
}

/// The configuration with the command and the registers that its mode fixes.
/// The manual mode fixes nothing.
pub open spec fn with_mode_presets(config: BasicEvoSpecialConfiguration) -> BasicEvoSpecialConfiguration {
    if config.mode == 1 {
        BasicEvoSpecialConfiguration {
            command: READ_COMMAND,
            start_address: 0x0009,
            no_of_registers: 2,
            ..config
        }
    } else if config.mode == 2 {
        BasicEvoSpecialConfiguration { command: WRITE_COMMAND, reg_address: 0x0047, ..config }
    } else if config.mode == 3 {
        BasicEvoSpecialConfiguration { command: WRITE_COMMAND, reg_address: 0x0054, ..config }
    } else if config.mode == 4 {
        BasicEvoSpecialConfiguration {
            command: READ_COMMAND,
            start_address: 0x0080,
            no_of_registers: 4,
            ..config
        }
    } else {
        config
    }
}

/// What a request says between the colon and the checksum: the address of the
/// device and the command in two hexadecimal digits each, then, for a write,
/// the register and its value, and for a read, the first register and the
/// number of registers, in four digits each.
pub open spec fn request_body(
    device_address: u32,
    command: u32,
    start_address: u32,
    no_of_registers: u32,
    reg_address: u32,
    reg_value: u32,
) -> Seq<u8> {
    hex_padded(device_address as nat, 2) + hex_padded(command as nat, 2) + if command
        == WRITE_COMMAND {
        hex_padded(reg_address as nat, 4) + hex_padded(reg_value as nat, 4)
    } else if command == READ_COMMAND {
        hex_padded(start_address as nat, 4) + hex_padded(no_of_registers as nat, 4)
    } else {
        Seq::<u8>::empty()
    }
}

/// A request: a colon, the body, and the checksum of the body in two
/// hexadecimal digits.
pub open spec fn request_frame(body: Seq<u8>) -> Seq<u8> {
    seq![0x3Au8] + body + hex_padded(checksum(body) as nat, 2)
}

/// The request that a configuration asks for.
pub open spec fn request_of(config: BasicEvoSpecialConfiguration) -> Seq<u8> {
    request_frame(
        request_body(
            config.device_address,
            config.command,
            config.start_address,
            config.no_of_registers,
            config.reg_address,
            config.reg_value,
        ),
    )
}

impl BasicEvoSpecialConfiguration {
    /// What the parser can give.
    pub open spec fn valid(&self) -> bool {
        &&& (self.command == READ_COMMAND || self.command == WRITE_COMMAND)
        &&& self.mode <= 4
    }

    /// The persisted form: the seven numbers in four bytes each.
    pub open spec fn encoded(&self) -> Seq<u8> {
        le_bytes(self.device_address as int, 4) + le_bytes(self.command as int, 4) + le_bytes(
            self.start_address as int,
            4,
        ) + le_bytes(self.no_of_registers as int, 4) + le_bytes(self.reg_address as int, 4)
            + le_bytes(self.reg_value as int, 4) + le_bytes(self.mode as int, 4) + zeros(4)
    }

    /// The configuration that the partition `bytes` holds.
    pub open spec fn decoded(bytes: Seq<u8>) -> Self {
        BasicEvoSpecialConfiguration {
            device_address: le_value(bytes.subrange(0, 4)) as u32,
            command: le_value(bytes.subrange(4, 8)) as u32,
            start_address: le_value(bytes.subrange(8, 12)) as u32,
            no_of_registers: le_value(bytes.subrange(12, 16)) as u32,
            reg_address: le_value(bytes.subrange(16, 20)) as u32,
            reg_value: le_value(bytes.subrange(20, 24)) as u32,
            mode: le_value(bytes.subrange(24, 28)) as u32,
        }
    }

    /// The fields of a configuration report show this configuration.
    pub open spec fn shown_by(&self, fields: Seq<Field>) -> bool {
        &&& lookup(fields, "device_address"@) == FieldView::Number(
            unsigned_number(self.device_address as u64),
        )
        &&& lookup(fields, "command"@) == FieldView::Text(command_name(self.command))
        &&& lookup(fields, "start_address"@) == FieldView::Number(
            unsigned_number(self.start_address as u64),
        )
        &&& lookup(fields, "no_of_registers"@) == FieldView::Number(
            unsigned_number(self.no_of_registers as u64),
        )
        &&& lookup(fields, "reg_address"@) == FieldView::Number(
            unsigned_number(self.reg_address as u64),
        )
        &&& lookup(fields, "reg_value"@) == FieldView::Number(
            unsigned_number(self.reg_value as u64),
        )
        &&& lookup(fields, "mode"@) == FieldView::Text(mode_name(self.mode))
    }

    /// Reads the configuration from the fields of a command.
    pub fn parse_from_values(values: &ConfigurationValues) -> (r: Result<
        BasicEvoSpecialConfiguration,
        &'static str,
    >)
        ensures
            agrees(r, parsed(values.fields@)),
            r matches Ok(config) ==> config.valid(),
    {
        let device_address: u32 = match read_unsigned(
            values,
            "device_address",
            0x34,
            "invalid device address",
            Some("device address is required"),
        ) {
            Ok(n) => n,
            Err(message) => { return Err(message); },
        };
        let command: u32 = match read_text(
            values,
            "command",
            "command must be \"read\" or \"write\"",
        ) {
            Ok(text) => if lowercase_equals(text, "read".as_bytes()) {
                READ_COMMAND
            } else if lowercase_equals(text, "write".as_bytes()) {
                WRITE_COMMAND
            } else {
                return Err("invalid command");
            },
            Err(message) => { return Err(message); },
        };
        let start_address: u32 = match read_unsigned(
            values,
            "start_address",
            0x80,
            "invalid start address",
            Some("start address is required"),
        ) {
            Ok(n) => n,
            Err(message) => { return Err(message); },
        };
        let no_of_registers: u32 = match read_unsigned(
            values,
            "no_of_registers",
            2,
            "invalid number of registers",
            Some("number of registers is required"),
        ) {
            Ok(n) => n,
            Err(message) => { return Err(message); },
        };
        let reg_address: u32 = match read_unsigned(
            values,
            "reg_address",
            1,
            "invalid register address",
            Some("register address is required"),
        ) {
            Ok(n) => n,
            Err(message) => { return Err(message); },
        };
        let reg_value: u32 = match read_unsigned(
            values,
            "reg_value",
            1,
            "invalid register value",
            Some("register value is required"),
        ) {
            Ok(n) => n,
            Err(message) => { return Err(message); },
        };
        let mode: u32 = match read_text(values, "mode", "mode is required") {
            Ok(text) => if lowercase_equals(text, "manual".as_bytes()) {
                0
            } else if lowercase_equals(text, "read_conc".as_bytes()) {
                1
            } else if lowercase_equals(text, "write_zero".as_bytes()) {
                2
            } else if lowercase_equals(text, "write_span".as_bytes()) {
                3
            } else if lowercase_equals(text, "device_info".as_bytes()) {
                4
            } else {
                return Err("invalid mode");
            },
            Err(message) => { return Err(message); },
        };
        Ok(
            BasicEvoSpecialConfiguration {
                device_address,
                command,
                start_address,
                no_of_registers,
                reg_address,
                reg_value,
                mode,
            },
        )
    }

    /// Reads the configuration from its partition.
    pub fn new_from_bytes(bytes: [u8; SENSOR_SETTINGS_PARTITION_SIZE]) -> (config:
        BasicEvoSpecialConfiguration)
        ensures
            config == Self::decoded(bytes@),
    {
        proof {
            lemma_radix_values();
        }
        BasicEvoSpecialConfiguration {
            device_address: get_unsigned(bytes.as_slice(), 0, 4) as u32,
            command: get_unsigned(bytes.as_slice(), 4, 4) as u32,
            start_address: get_unsigned(bytes.as_slice(), 8, 4) as u32,
            no_of_registers: get_unsigned(bytes.as_slice(), 12, 4) as u32,
            reg_address: get_unsigned(bytes.as_slice(), 16, 4) as u32,
            reg_value: get_unsigned(bytes.as_slice(), 20, 4) as u32,
            mode: get_unsigned(bytes.as_slice(), 24, 4) as u32,
        }
    }

    /// Writes the configuration as its partition.
    pub fn to_bytes(&self) -> (bytes: [u8; SENSOR_SETTINGS_PARTITION_SIZE])
        ensures
            bytes@ == self.encoded(),
    {
        let mut out: Vec<u8> = Vec::new();
        put_unsigned(&mut out, self.device_address as u128, 4);
        put_unsigned(&mut out, self.command as u128, 4);
        put_unsigned(&mut out, self.start_address as u128, 4);
        put_unsigned(&mut out, self.no_of_registers as u128, 4);
        put_unsigned(&mut out, self.reg_address as u128, 4);
        put_unsigned(&mut out, self.reg_value as u128, 4);
        put_unsigned(&mut out, self.mode as u128, 4);
        put_zeros(&mut out, 4);
        proof {
            lemma_le_bytes_len(self.device_address as int, 4);
            lemma_le_bytes_len(self.command as int, 4);
            lemma_le_bytes_len(self.start_address as int, 4);
            lemma_le_bytes_len(self.no_of_registers as int, 4);
            lemma_le_bytes_len(self.reg_address as int, 4);
            lemma_le_bytes_len(self.reg_value as int, 4);
            lemma_le_bytes_len(self.mode as int, 4);
            assert(out@ =~= self.encoded());
        }
        partition_from(&out)
    }
}

/// A configuration read back from its own persisted form is the same
/// configuration.
pub proof fn lemma_special_round_trip(config: BasicEvoSpecialConfiguration)
    ensures
        config.encoded().len() == 32,
        BasicEvoSpecialConfiguration::decoded(config.encoded()) == config,
{
    lemma_radix_values();
    lemma_le_round_trip(config.device_address as int, 4);
    lemma_le_round_trip(config.command as int, 4);
    lemma_le_round_trip(config.start_address as int, 4);
    lemma_le_round_trip(config.no_of_registers as int, 4);
    lemma_le_round_trip(config.reg_address as int, 4);
    lemma_le_round_trip(config.reg_value as int, 4);
    lemma_le_round_trip(config.mode as int, 4);
    let bytes = config.encoded();
    assert(bytes.subrange(0, 4) =~= le_bytes(config.device_address as int, 4));
    assert(bytes.subrange(4, 8) =~= le_bytes(config.command as int, 4));
    assert(bytes.subrange(8, 12) =~= le_bytes(config.start_address as int, 4));
    assert(bytes.subrange(12, 16) =~= le_bytes(config.no_of_registers as int, 4));
    assert(bytes.subrange(16, 20) =~= le_bytes(config.reg_address as int, 4));
    assert(bytes.subrange(20, 24) =~= le_bytes(config.reg_value as int, 4));
    assert(bytes.subrange(24, 28) =~= le_bytes(config.mode as int, 4));
}

/// A configuration that the parser can give is read again from the report that
/// shows it.
pub proof fn lemma_report_round_trip(config: BasicEvoSpecialConfiguration, fields: Seq<Field>)
    requires
        config.valid(),
        config.shown_by(fields),
    ensures
        parsed(fields) == Ok::<BasicEvoSpecialConfiguration, Seq<char>>(config),
{
    reveal_strlit("read");
    reveal_strlit("write");
    reveal_strlit("manual");
    reveal_strlit("read_conc");
    reveal_strlit("write_zero");
    reveal_strlit("write_span");
    reveal_strlit("device_info");
    lemma_lowercase_text("read"@);
    lemma_lowercase_text("write"@);
    lemma_lowercase_text("manual"@);
    lemma_lowercase_text("read_conc"@);
    lemma_lowercase_text("write_zero"@);
    lemma_lowercase_text("write_span"@);
    lemma_lowercase_text("device_info"@);
    assert(encode_utf8("write_zero"@)[6] != encode_utf8("write_span"@)[6]);
}

/// The name of a command in a configuration report.
fn command_text(command: u32) -> (name: &'static str)
    ensures
        name@ == command_name(command),
{
    if command == READ_COMMAND {
        "read"
    } else if command == WRITE_COMMAND {
        "write"
    } else {
        "unknown"
    }
}

/// The name of a mode in a configuration report.
fn mode_text(mode: u32) -> (name: &'static str)
    ensures
        name@ == mode_name(mode),
{
    if mode == 1 {
        "read_conc"
    } else if mode == 2 {
        "write_zero"
    } else if mode == 3 {
        "write_span"
    } else if mode == 4 {
        "device_info"
    } else {
        "manual"
    }
}

/// Builds a request from its parts.
fn build_request(
    device_address: u32,
    command: u32,
    start_address: u32,
    no_of_registers: u32,
    reg_address: u32,
    reg_value: u32,
) -> (message: Vec<u8>)
    ensures
        message@ == request_frame(
            request_body(
                device_address,
                command,
                start_address,
                no_of_registers,
                reg_address,
                reg_value,
            ),
        ),
{
    let mut body: Vec<u8> = Vec::new();
    push_hex(&mut body, device_address, 2);
    push_hex(&mut body, command, 2);
    if command == WRITE_COMMAND {
        push_hex(&mut body, reg_address, 4);
        push_hex(&mut body, reg_value, 4);
    } else if command == READ_COMMAND {
        push_hex(&mut body, start_address, 4);
        push_hex(&mut body, no_of_registers, 4);
    }
    assert(body@ =~= request_body(
        device_address,
        command,
        start_address,
        no_of_registers,
        reg_address,
        reg_value,
    ));
    let check: u32 = checksum_of(body.as_slice());
    let mut message: Vec<u8> = Vec::new();
    message.push(0x3A);
    put_bytes(&mut message, body.as_slice());
    push_hex(&mut message, check, 2);
    assert(message@ =~= request_frame(body@));
    message
}

/// A message as it goes out on the serial line: ended by carriage return and
/// line feed.
pub fn line_of(message: &[u8]) -> (line: Vec<u8>)
    ensures
        line@ == message@ + seq![0x0Du8, 0x0Au8],
{
    let mut line: Vec<u8> = Vec::new();
    put_bytes(&mut line, message);
    line.push(0x0D);
    line.push(0x0A);
    assert(line@ =~= message@ + seq![0x0Du8, 0x0Au8]);
    line
}

/// Number of register values that a driver with this configuration reports.
pub open spec fn register_count(config: BasicEvoSpecialConfiguration) -> nat {
    if config.no_of_registers <= 16 {
        config.no_of_registers as nat
    } else {
        16
    }
}

/// Whether the driver takes a response: it is long enough to hold an address,
/// its last two characters are the checksum of what stands between them and
/// the colon, and it comes from the device that the driver talks to.
pub open spec fn response_accepted(text: Seq<u8>, device_address: u32) -> bool {
    &&& text.len() >= 5
    &&& checksum(text.subrange(1, text.len() - 2)) == hex_field(
        text,
        text.len() - 2,
        text.len() as int,
    )
    &&& hex_field(text, 1, 3) == device_address
}

/// Register value `index` after the response `text` was taken: the four
/// hexadecimal digits at its place in the response where the response holds
/// them in front of the checksum, else what it was before.
pub open spec fn register_after(text: Seq<u8>, before: u16, index: int, count: nat) -> u16 {
    if index < count && 11 + 4 * index <= text.len() - 2 {
        hex_field(text, 7 + 4 * index, 11 + 4 * index) as u16
    } else {
        before
    }
}

/// Whether `after` is the driver `before` once it took the response in
/// `message`, the bytes in front of its first NUL: a response that is accepted
/// fills the registers that it holds, any other changes nothing, and nothing
/// but the registers ever changes.
pub open spec fn response_taken(before: BasicEvo, message: Seq<u8>, after: BasicEvo) -> bool {
    &&& after.general_config == before.general_config
    &&& after.special_config == before.special_config
    &&& after.message == before.message
    &&& if response_accepted(until_nul(message), before.special_config.device_address) {
        forall|i: int|
            0 <= i < 16 ==> #[trigger] after.register_values@[i] == register_after(
                until_nul(message),
                before.register_values@[i],
                i,
                register_count(before.special_config),
            )
    } else {
        after.register_values == before.register_values
    }
}

/// A gas sensor of the series.
#[derive(Debug)]
pub struct BasicEvo {
    pub general_config: SensorDriverGeneralConfiguration,
    pub special_config: BasicEvoSpecialConfiguration,
    /// The request that a measurement sends.
    pub message: Vec<u8>,
    /// The registers that the last accepted response held.
    pub register_values: [u16; 16],
}

impl BasicEvo {
    /// A driver that asks for the device information until it is set up.
    pub fn new(
        general_config: SensorDriverGeneralConfiguration,
        special_config: BasicEvoSpecialConfiguration,
    ) -> (driver: Self)
        ensures
            driver.general_config == general_config,
            driver.special_config == special_config,
            driver.message@ == ":340300800004AA".spec_bytes(),
            forall|i: int| 0 <= i < 16 ==> #[trigger] driver.register_values@[i] == 0,
    {
        BasicEvo {
            general_config,
            special_config,
            message: slice_to_vec(":340300800004AA".as_bytes()),
            register_values: [0, 0, 0, 0, 0, 0, 0, 0, 0, 0, 0, 0, 0, 0, 0, 0],
        }
    }

    /// Applies what the mode fixes to the configuration, and builds the request
    /// that the configuration then asks for.
    pub fn construct_message(&mut self) -> (message: Vec<u8>)
        ensures
            final(self).special_config == with_mode_presets(old(self).special_config),
            final(self).general_config == old(self).general_config,
            final(self).message == old(self).message,
            final(self).register_values == old(self).register_values,
            message@ == request_of(final(self).special_config),
    {
        if self.special_config.mode == 1 {
            self.special_config.command = READ_COMMAND;
            self.special_config.start_address = 0x0009;
            self.special_config.no_of_registers = 2;
        } else if self.special_config.mode == 2 {
            self.special_config.command = WRITE_COMMAND;
            self.special_config.reg_address = 0x0047;
        } else if self.special_config.mode == 3 {
            self.special_config.command = WRITE_COMMAND;
            self.special_config.reg_address = 0x0054;
        } else if self.special_config.mode == 4 {
            self.special_config.command = READ_COMMAND;
            self.special_config.start_address = 0x0080;
            self.special_config.no_of_registers = 4;
        }
        build_request(
            self.special_config.device_address,
            self.special_config.command,
            self.special_config.start_address,
            self.special_config.no_of_registers,
            self.special_config.reg_address,
            self.special_config.reg_value,
        )
    }

    /// Builds a request to the device at the address that sensors are shipped
    /// with.
    pub fn construct_message_manual(
        &self,
        command: u32,
        address: u32,
        no_of_registers: u32,
        reg_address: u32,
        reg_value: u32,
    ) -> (message: Vec<u8>)
        ensures
            message@ == request_frame(
                request_body(
                    DEFAULT_DEVICE_ADDRESS,
                    command,
                    address,
                    no_of_registers,
                    reg_address,
                    reg_value,
                ),
            ),
    {
        build_request(
            DEFAULT_DEVICE_ADDRESS,
            command,
            address,
            no_of_registers,
            reg_address,
            reg_value,
        )
    }

    /// Sends `message`, ended by carriage return and line feed, and gives the
    /// device two seconds to act on it.
    pub fn send_write_command<B: RRIVBoard>(&self, board: &mut B, message: Vec<u8>) {
        let line: Vec<u8> = line_of(message.as_slice());
        board.usart_send(line.as_slice());
        board.delay_ms(2000);
    }

    /// Takes the response in `message`, the bytes in front of its first NUL.
    /// A response that is not accepted changes nothing.
    pub fn take_response(&mut self, message: &[u8; 50])
        ensures
            response_taken(*old(self), message@, *final(self)),
            final(self).general_config == old(self).general_config,
            final(self).special_config == old(self).special_config,
            final(self).message == old(self).message,
            !response_accepted(until_nul(message@), old(self).special_config.device_address)
                ==> final(self).register_values == old(self).register_values,
            response_accepted(until_nul(message@), old(self).special_config.device_address)
                ==> forall|i: int|
                0 <= i < 16 ==> #[trigger] final(self).register_values@[i] == register_after(
                    until_nul(message@),
                    old(self).register_values@[i],
                    i,
                    register_count(old(self).special_config),
                ),
    {
        let end: usize = find_nul(message.as_slice());
        let text: &[u8] = vstd::slice::slice_subrange(message.as_slice(), 0, end);
        let n: usize = text.len();
        if n < 5 {
            return;
        }
        let body: &[u8] = vstd::slice::slice_subrange(text, 1, n - 2);
        let expected: u32 = checksum_of(body);
        let actual: u16 = read_hex(text, n - 2, n);
        if expected != actual as u32 {
            return;
        }
        let device: u16 = read_hex(text, 1, 3);
        if device as u32 != self.special_config.device_address {
            return;
        }
        let count: usize = if self.special_config.no_of_registers <= 16 {
            self.special_config.no_of_registers as usize
        } else {
            16
        };
        let mut i: usize = 0;
        while i < count
            invariant
                i <= count <= 16,
                n == text@.len(),
                5 <= n <= 50,
                count == register_count(old(self).special_config),
                self.general_config == old(self).general_config,
                self.special_config == old(self).special_config,
                self.message == old(self).message,
                forall|j: int|
                    0 <= j < i ==> #[trigger] self.register_values@[j] == register_after(
                        text@,
                        old(self).register_values@[j],
                        j,
                        count as nat,
                    ),
                forall|j: int|
                    i <= j < 16 ==> #[trigger] self.register_values@[j] == old(self).register_values@[j],
            decreases count - i,
        {
            if 11 + 4 * i <= n - 2 {
                self.register_values[i] = read_hex(text, 7 + 4 * i, 11 + 4 * i);
            }
            i += 1;
        }
    }
}

impl SensorDriver for BasicEvo {
    open spec fn well_formed(&self) -> bool {
        true
    }

    open spec fn general(&self) -> SensorDriverGeneralConfiguration {
        self.general_config
    }

    open spec fn special_bytes(&self) -> Seq<u8> {
        self.special_config.encoded()
    }

    open spec fn parameter_count(&self) -> nat {
        register_count(self.special_config)
    }

    /// Each parameter is a register of the last accepted response, as a whole
    /// number.
    open spec fn parameter_value(&self, index: int) -> Option<i64> {
        Some((self.register_values@[index] as int * 1_000_000) as i64)
    }

    open spec fn parameter_name(&self, index: int) -> Seq<u8> {
        if index < register_count(self.special_config) {
            "read".spec_bytes()
        } else {
            "invalid".spec_bytes()
        }
    }

    /// The driver holds the serial line and pin 6.
    open spec fn requested(&self) -> Set<int> {
        Set::<int>::empty().insert(5).insert(8)
    }

    fn get_id(&self) -> (id: [u8; 6]) {
        self.general_config.id
    }

    fn get_type_id(&self) -> (type_id: u16) {
        self.general_config.sensor_type_id
    }

    /// Builds the request that every measurement sends.
    fn setup<B: RRIVBoard>(&mut self, board: &mut B)
        ensures
            final(self).special_config == with_mode_presets(old(self).special_config),
            final(self).message@ == request_of(final(self).special_config),
            final(self).register_values == old(self).register_values,
    {
        let message: Vec<u8> = self.construct_message();
        self.message = message;
    }

    fn get_measured_parameter_count(&self) -> (count: usize) {
        if self.special_config.no_of_registers <= 16 {
            self.special_config.no_of_registers as usize
        } else {
            16
        }
    }

    fn get_measured_parameter_value(&self, index: usize) -> (r: Result<i64, ()>) {
        if index < self.get_measured_parameter_count() {
            Ok(self.register_values[index] as i64 * 1_000_000)
        } else {
            Err(())
        }
    }

    fn get_measured_parameter_identifier(&self, index: usize) -> (identifier: [u8; 16]) {
        if index < self.get_measured_parameter_count() {
            identifier_from("read".as_bytes())
        } else {
            identifier_from("invalid".as_bytes())
        }
    }

    /// Sends the request, ended by carriage return and line feed. The response
    /// comes later, through `receive_message`.
    fn take_measurement<B: RRIVBoard>(&mut self, board: &mut B)
        ensures
            *final(self) == *old(self),
    {
        let line: Vec<u8> = line_of(self.message.as_slice());
        board.usart_send(line.as_slice());
        board.delay_ms(500);
    }

    fn update_actuators<B: RRIVBoard>(&mut self, board: &mut B)
        ensures
            *final(self) == *old(self),
    {
    }

    /// The sensor is calibrated by writing its reference registers, not by a
    /// fit: every fit is refused.
    fn fit(&mut self, pairs: &[CalibrationPair]) -> (r: Result<(), ()>)
        ensures
            r is Err,
    {
        Err(())
    }

    fn clear_calibration(&mut self)
        ensures
            *final(self) == *old(self),
    {
    }

    fn get_configuration_bytes(&self, storage: &mut [u8; 64]) {
        let general: [u8; 32] = self.general_config.to_bytes();
        let special: [u8; 32] = self.special_config.to_bytes();
        copy_config_into_partition(0, general.as_slice(), storage);
        copy_config_into_partition(1, special.as_slice(), storage);
        proof {
            lemma_both_partitions(old(storage)@, general@, special@);
        }
    }

    /// The report names the slot and the driver and shows every field of the
    /// configuration.
    fn get_configuration_json(&self) -> (values: ConfigurationValues)
        ensures
            self.special_config.shown_by(values.fields@),
            lookup(values.fields@, "type"@) == FieldView::Text(
                driver_name(self.general_config.sensor_type_id),
            ),
            lookup(values.fields@, "id"@) matches FieldView::Text(text) && encode_utf8(text)
                == until_nul(sanitized(self.general_config.id@)),
    {
        let mut values = ConfigurationValues::new();
        let mut id: [u8; 6] = self.general_config.id;
        let id_text: String = match str_from_utf8(&mut id) {
            Ok(text) => text.to_owned(),
            Err(_) => "Invalid".to_owned(),
        };
        proof {
            reveal_strlit("id");
            reveal_strlit("type");
            reveal_strlit("device_address");
            reveal_strlit("command");
            reveal_strlit("start_address");
            reveal_strlit("no_of_registers");
            reveal_strlit("reg_address");
            reveal_strlit("reg_value");
            reveal_strlit("mode");
            assert("id"@.len() == 2);
            assert("type"@.len() == 4);
            assert("device_address"@.len() == 14);
            assert("command"@.len() == 7);
            assert("start_address"@.len() == 13);
            assert("no_of_registers"@.len() == 15);
            assert("reg_address"@.len() == 11);
            assert("reg_value"@.len() == 9);
            assert("mode"@.len() == 4);
            assert("mode"@[0] != "type"@[0]);
        }
        values.set("id", FieldValue::Text(id_text));
        values.set(
            "type",
            FieldValue::Text(name_from_type_id(self.general_config.sensor_type_id).to_owned()),
        );
        values.set(
            "device_address",
            FieldValue::Number(number_from_unsigned(self.special_config.device_address as u64)),
        );
        values.set("command", FieldValue::Text(command_text(self.special_config.command).to_owned()));
        values.set(
            "start_address",
            FieldValue::Number(number_from_unsigned(self.special_config.start_address as u64)),
        );
        values.set(
            "no_of_registers",
            FieldValue::Number(number_from_unsigned(self.special_config.no_of_registers as u64)),
        );
        values.set(
            "reg_address",
            FieldValue::Number(number_from_unsigned(self.special_config.reg_address as u64)),
        );
        values.set(
            "reg_value",
            FieldValue::Number(number_from_unsigned(self.special_config.reg_value as u64)),
        );
        values.set("mode", FieldValue::Text(mode_text(self.special_config.mode).to_owned()));
        values
    }

    fn get_requested_gpios(&self) -> (request: GpioRequest) {
        let mut request = GpioRequest::none();
        request.use_pin(6);
        request.use_usart();
        request
    }

    /// Takes the response, if one came: a response that is accepted fills the
    /// registers that it holds; without a response, or with one that is not
    /// accepted, nothing changes.
    fn receive_message(&mut self, message: Option<[u8; 50]>)
        ensures
            match message {
                Some(bytes) => response_taken(*old(self), bytes@, *final(self)),
                None => *final(self) == *old(self),
            },
    {
        match message {
            Some(bytes) => {
                self.take_response(&bytes);
            },
            None => {},
        }
    }

    fn receive_modbus(&mut self, response: &ModbusResponse)
        ensures
            *final(self) == *old(self),
    {
    }
}

} // verus!
