pub mod commands;
pub mod io;
pub mod protocol;
pub mod robot;

pub use commands::Command;
pub use io::MockSerial;
pub use io::SerialPort;
pub use protocol::Packet;
pub use robot::Error;
pub use robot::MyCobot;
