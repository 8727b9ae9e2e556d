//! The commands of the control interface.

use vstd::prelude::*;
use crate::util::same_text;

verus! {

/// A command of the control interface.
#[derive(Clone, Copy, Debug, PartialEq, Eq, Hash)]
pub enum CommandType {
    DataloggerSet,
    DataloggerGet,
    DataloggerReset,
    DataloggerSetMode,
    SensorSet,
    SensorGet,
    SensorRemove,
    SensorList,
    SensorCalibratePoint,
    SensorCalibrateList,
    SensorCalibrateRemove,
    SensorCalibrateFit,
    SensorCalibrateClear,
    SensorReset,
    ActuatorSet,
    ActuatorGet,
    ActuatorRemove,
    ActuatorList,
    ActuatorReset,
    TelemeterSet,
    TelemeterGet,
    TelemeterRemove,
    TelemeterList,
    TelemeterReset,
    BoardVersion,
    BoardFirmwareWarranty,
    BoardFirmwareConditions,
    BoardFirmwareLicense,
    BoardRtcSet,
    BoardGet,
    BoardRestart,
    BoardI2cList,
    BoardMemoryCheck,
    BoardMcuStop,
    BoardMcuSleep,
    BoardSignalExAdcHigh,
    BoardSignalExAdcLow,
    BoardSignal3v3BoostHigh,
    BoardSerialSend,
    BoardSignal3v3BoostLow,
    DeviceSetSerialNumber,
    DeviceGet,
    Unknown,
}

/// The command that the three words of a command line name: the object, the
/// action and, where the action has one, its detail. Words that name no command
/// stand for `Unknown`.
pub open spec fn command_named(object: Seq<char>, action: Seq<char>, detail: Seq<char>) -> CommandType {
    if object == "datalogger"@ && action == "set"@ && detail == ""@ {
        CommandType::DataloggerSet
    } else if object == "datalogger"@ && action == "get"@ && detail == ""@ {
        CommandType::DataloggerGet
    } else if object == "datalogger"@ && action == "reset"@ && detail == ""@ {
        CommandType::DataloggerReset
    } else if object == "datalogger"@ && action == "set"@ && detail == "mode"@ {
        CommandType::DataloggerSetMode
    } else if object == "sensor"@ && action == "set"@ && detail == ""@ {
        CommandType::SensorSet
    } else if object == "sensor"@ && action == "get"@ && detail == ""@ {
        CommandType::SensorGet
    } else if object == "sensor"@ && action == "remove"@ && detail == ""@ {
        CommandType::SensorRemove
    } else if object == "sensor"@ && action == "list"@ && detail == ""@ {
        CommandType::SensorList
    } else if object == "sensor"@ && action == "calibrate"@ && detail == "point"@ {
        CommandType::SensorCalibratePoint
    } else if object == "sensor"@ && action == "calibrate"@ && detail == "list"@ {
        CommandType::SensorCalibrateList
    } else if object == "sensor"@ && action == "calibrate"@ && detail == "remove"@ {
        CommandType::SensorCalibrateRemove
    } else if object == "sensor"@ && action == "calibrate"@ && detail == "fit"@ {
        CommandType::SensorCalibrateFit
    } else if object == "sensor"@ && action == "calibrate"@ && detail == "clear"@ {
        CommandType::SensorCalibrateClear
    } else if object == "sensor"@ && action == "reset"@ && detail == ""@ {
        CommandType::SensorReset
    } else if object == "actuator"@ && action == "set"@ && detail == ""@ {
        CommandType::ActuatorSet
    } else if object == "actuator"@ && action == "get"@ && detail == ""@ {
        CommandType::ActuatorGet
    } else if object == "actuator"@ && action == "remove"@ && detail == ""@ {
        CommandType::ActuatorRemove
    } else if object == "actuator"@ && action == "list"@ && detail == ""@ {
        CommandType::ActuatorList
    } else if object == "actuator"@ && action == "reset"@ && detail == ""@ {
        CommandType::ActuatorReset
    } else if object == "telemeter"@ && action == "set"@ && detail == ""@ {
        CommandType::TelemeterSet
    } else if object == "telemeter"@ && action == "get"@ && detail == ""@ {
        CommandType::TelemeterGet
    } else if object == "telemeter"@ && action == "remove"@ && detail == ""@ {
        CommandType::TelemeterRemove
    } else if object == "telemeter"@ && action == "list"@ && detail == ""@ {
        CommandType::TelemeterList
    } else if object == "telemeter"@ && action == "reset"@ && detail == ""@ {
        CommandType::TelemeterReset
    } else if object == "board"@ && action == "version"@ && detail == ""@ {
        CommandType::BoardVersion
    } else if object == "board"@ && action == "firmware"@ && detail == "warranty"@ {
        CommandType::BoardFirmwareWarranty
    } else if object == "board"@ && action == "firmware"@ && detail == "conditions"@ {
        CommandType::BoardFirmwareConditions
    } else if object == "board"@ && action == "firmware"@ && detail == "license"@ {
        CommandType::BoardFirmwareLicense
    } else if object == "board"@ && action == "set"@ && detail == ""@ {
        CommandType::BoardRtcSet
    } else if object == "board"@ && action == "get"@ && detail == ""@ {
        CommandType::BoardGet
    } else if object == "board"@ && action == "restart"@ && detail == ""@ {
        CommandType::BoardRestart
    } else if object == "board"@ && action == "i2c"@ && detail == "list"@ {
        CommandType::BoardI2cList
    } else if object == "board"@ && action == "memory"@ && detail == "check"@ {
        CommandType::BoardMemoryCheck
    } else if object == "board"@ && action == "mcu"@ && detail == "stop"@ {
        CommandType::BoardMcuStop
    } else if object == "board"@ && action == "mcu"@ && detail == "sleep"@ {
        CommandType::BoardMcuSleep
    } else if object == "board_signal_ex"@ && action == "adc"@ && detail == "high"@ {
        CommandType::BoardSignalExAdcHigh
    } else if object == "board_signal_ex"@ && action == "adc"@ && detail == "low"@ {
        CommandType::BoardSignalExAdcLow
    } else if object == "board_signal_3v3"@ && action == "boost"@ && detail == "high"@ {
        CommandType::BoardSignal3v3BoostHigh
    } else if object == "board_signal_3v3"@ && action == "boost"@ && detail == "low"@ {
        CommandType::BoardSignal3v3BoostLow
    } else if object == "serial"@ && action == "send"@ && detail == ""@ {
        CommandType::BoardSerialSend
    } else if object == "device"@ && action == "set"@ && detail == ""@ {
        CommandType::DeviceSetSerialNumber
    } else if object == "device"@ && action == "get"@ && detail == ""@ {
        CommandType::DeviceGet
    } else {
        CommandType::Unknown
    }
}

impl CommandType {
    /// The command that the three words of a command line name.
    pub fn from(cmd: (&str, &str, &str)) -> (command: Self)
        ensures
            command == command_named(cmd.0@, cmd.1@, cmd.2@),
    {
        if same_text(cmd.0, "datalogger") && same_text(cmd.1, "set") && same_text(cmd.2, "") {
            CommandType::DataloggerSet
        } else if same_text(cmd.0, "datalogger") && same_text(cmd.1, "get") && same_text(cmd.2, "") {
            CommandType::DataloggerGet
        } else if same_text(cmd.0, "datalogger") && same_text(cmd.1, "reset") && same_text(cmd.2, "") {
            CommandType::DataloggerReset
        } else if same_text(cmd.0, "datalogger") && same_text(cmd.1, "set") && same_text(cmd.2, "mode") {
            CommandType::DataloggerSetMode
        } else if same_text(cmd.0, "sensor") && same_text(cmd.1, "set") && same_text(cmd.2, "") {
            CommandType::SensorSet
        } else if same_text(cmd.0, "sensor") && same_text(cmd.1, "get") && same_text(cmd.2, "") {
            CommandType::SensorGet
        } else if same_text(cmd.0, "sensor") && same_text(cmd.1, "remove") && same_text(cmd.2, "") {
            CommandType::SensorRemove
        } else if same_text(cmd.0, "sensor") && same_text(cmd.1, "list") && same_text(cmd.2, "") {
            CommandType::SensorList
        } else if same_text(cmd.0, "sensor") && same_text(cmd.1, "calibrate") && same_text(cmd.2, "point") {
            CommandType::SensorCalibratePoint
        } else if same_text(cmd.0, "sensor") && same_text(cmd.1, "calibrate") && same_text(cmd.2, "list") {
            CommandType::SensorCalibrateList
        } else if same_text(cmd.0, "sensor") && same_text(cmd.1, "calibrate") && same_text(cmd.2, "remove") {
            CommandType::SensorCalibrateRemove
        } else if same_text(cmd.0, "sensor") && same_text(cmd.1, "calibrate") && same_text(cmd.2, "fit") {
            CommandType::SensorCalibrateFit
        } else if same_text(cmd.0, "sensor") && same_text(cmd.1, "calibrate") && same_text(cmd.2, "clear") {
            CommandType::SensorCalibrateClear
        } else if same_text(cmd.0, "sensor") && same_text(cmd.1, "reset") && same_text(cmd.2, "") {
            CommandType::SensorReset
        } else if same_text(cmd.0, "actuator") && same_text(cmd.1, "set") && same_text(cmd.2, "") {
            CommandType::ActuatorSet
        } else if same_text(cmd.0, "actuator") && same_text(cmd.1, "get") && same_text(cmd.2, "") {
            CommandType::ActuatorGet
        } else if same_text(cmd.0, "actuator") && same_text(cmd.1, "remove") && same_text(cmd.2, "") {
            CommandType::ActuatorRemove
        } else if same_text(cmd.0, "actuator") && same_text(cmd.1, "list") && same_text(cmd.2, "") {
            CommandType::ActuatorList
        } else if same_text(cmd.0, "actuator") && same_text(cmd.1, "reset") && same_text(cmd.2, "") {
            CommandType::ActuatorReset
        } else if same_text(cmd.0, "telemeter") && same_text(cmd.1, "set") && same_text(cmd.2, "") {
            CommandType::TelemeterSet
        } else if same_text(cmd.0, "telemeter") && same_text(cmd.1, "get") && same_text(cmd.2, "") {
            CommandType::TelemeterGet
        } else if same_text(cmd.0, "telemeter") && same_text(cmd.1, "remove") && same_text(cmd.2, "") {
            CommandType::TelemeterRemove
        } else if same_text(cmd.0, "telemeter") && same_text(cmd.1, "list") && same_text(cmd.2, "") {
            CommandType::TelemeterList
        } else if same_text(cmd.0, "telemeter") && same_text(cmd.1, "reset") && same_text(cmd.2, "") {
            CommandType::TelemeterReset
        } else if same_text(cmd.0, "board") && same_text(cmd.1, "version") && same_text(cmd.2, "") {
            CommandType::BoardVersion
        } else if same_text(cmd.0, "board") && same_text(cmd.1, "firmware") && same_text(cmd.2, "warranty") {
            CommandType::BoardFirmwareWarranty
        } else if same_text(cmd.0, "board") && same_text(cmd.1, "firmware") && same_text(cmd.2, "conditions") {
            CommandType::BoardFirmwareConditions
        } else if same_text(cmd.0, "board") && same_text(cmd.1, "firmware") && same_text(cmd.2, "license") {
            CommandType::BoardFirmwareLicense
        } else if same_text(cmd.0, "board") && same_text(cmd.1, "set") && same_text(cmd.2, "") {
            CommandType::BoardRtcSet
        } else if same_text(cmd.0, "board") && same_text(cmd.1, "get") && same_text(cmd.2, "") {
            CommandType::BoardGet
        } else if same_text(cmd.0, "board") && same_text(cmd.1, "restart") && same_text(cmd.2, "") {
            CommandType::BoardRestart
        } else if same_text(cmd.0, "board") && same_text(cmd.1, "i2c") && same_text(cmd.2, "list") {
            CommandType::BoardI2cList
        } else if same_text(cmd.0, "board") && same_text(cmd.1, "memory") && same_text(cmd.2, "check") {
            CommandType::BoardMemoryCheck
        } else if same_text(cmd.0, "board") && same_text(cmd.1, "mcu") && same_text(cmd.2, "stop") {
            CommandType::BoardMcuStop
        } else if same_text(cmd.0, "board") && same_text(cmd.1, "mcu") && same_text(cmd.2, "sleep") {
            CommandType::BoardMcuSleep
        } else if same_text(cmd.0, "board_signal_ex") && same_text(cmd.1, "adc") && same_text(cmd.2, "high") {
            CommandType::BoardSignalExAdcHigh
        } else if same_text(cmd.0, "board_signal_ex") && same_text(cmd.1, "adc") && same_text(cmd.2, "low") {
            CommandType::BoardSignalExAdcLow
        } else if same_text(cmd.0, "board_signal_3v3") && same_text(cmd.1, "boost") && same_text(cmd.2, "high") {
            CommandType::BoardSignal3v3BoostHigh
        } else if same_text(cmd.0, "board_signal_3v3") && same_text(cmd.1, "boost") && same_text(cmd.2, "low") {
            CommandType::BoardSignal3v3BoostLow
        } else if same_text(cmd.0, "serial") && same_text(cmd.1, "send") && same_text(cmd.2, "") {
            CommandType::BoardSerialSend
        } else if same_text(cmd.0, "device") && same_text(cmd.1, "set") && same_text(cmd.2, "") {
            CommandType::DeviceSetSerialNumber
        } else if same_text(cmd.0, "device") && same_text(cmd.1, "get") && same_text(cmd.2, "") {
            CommandType::DeviceGet
        } else {
            CommandType::Unknown
        }
    }
}

} // verus!
