//! Stand-ins for the transcoder, for trying the library without running it.

pub mod mock_command;
