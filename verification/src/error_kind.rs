use vstd::prelude::*;

verus! {

/// Everything that can go wrong between the gateway and the sinks.
#[derive(Debug)]
pub enum ErrorKind {
    EnvVarError,
    NetworkError,
    ParsingError,
    CouldNotCreateFolder(String),
    CouldNotCreateFile(String),
    CouldNotOpenFile(String),
    DBConnectionFailed(String),
    CouldNotWriteToDB(String),
    CouldNotWriteToCsv(String),
}

impl Clone for ErrorKind {
    fn clone(&self) -> (copy: Self)
        ensures
            copy == *self,
    {
        match self {
            ErrorKind::EnvVarError => ErrorKind::EnvVarError,
            ErrorKind::NetworkError => ErrorKind::NetworkError,
            ErrorKind::ParsingError => ErrorKind::ParsingError,
            ErrorKind::CouldNotCreateFolder(path) => ErrorKind::CouldNotCreateFolder(path.clone()),
            ErrorKind::CouldNotCreateFile(path) => ErrorKind::CouldNotCreateFile(path.clone()),
            ErrorKind::CouldNotOpenFile(path) => ErrorKind::CouldNotOpenFile(path.clone()),
            ErrorKind::DBConnectionFailed(message) => ErrorKind::DBConnectionFailed(
                message.clone(),
            ),
            ErrorKind::CouldNotWriteToDB(message) => ErrorKind::CouldNotWriteToDB(message.clone()),
            ErrorKind::CouldNotWriteToCsv(message) => ErrorKind::CouldNotWriteToCsv(
                message.clone(),
            ),
        }
    }
}

} // verus!
