use vstd::prelude::*;

verus! {

/// A file's contents in a repository, known by its hash.
#[derive(Debug)]
pub struct Blob {
    pub sha: String,
    pub size: i32,
    pub data: Option<Vec<u8>>,
}

impl Blob {
    /// The blob that was just fetched: its size is the length of the data
    /// as a 32-bit signed number (wrapping, as an `as` cast does).
    pub fn from_bytes(sha: &str, data: Vec<u8>) -> (res: Blob)
        ensures
            res.sha@ == sha@,
            res.size == data@.len() as i32,
            res.data == Some(data),
    {
        let size = data.len() as i32;
        Blob { sha: sha.to_string(), size, data: Some(data) }
    }

    /// The data, when the blob holds it; otherwise the blob back, whose data
    /// must be fetched.
    pub fn into_data(self) -> (res: Result<Vec<u8>, Blob>)
        ensures
            match self.data {
                Some(d) => res == Ok::<Vec<u8>, Blob>(d),
                None => res == Err::<Vec<u8>, Blob>(self),
            },
    {
        match self.data {
            Some(d) => Ok(d),
            None => Err(Blob { sha: self.sha, size: self.size, data: None }),
        }
    }
}

} // verus!
