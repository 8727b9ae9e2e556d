//! What stands between the serial lines and the drivers: the framing of the
//! bytes that arrive into messages.

pub mod usart_service;
pub mod modbus_service;
pub mod uart_b;
