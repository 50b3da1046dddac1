//! Reson8: the recording is the whole body of the request.
use vstd::prelude::*;

verus! {

pub const ENDPOINT: &'static str = "https://api.reson8.dev/v1/speech-to-text/prerecorded";

/// What a request to Reson8 is made of.
#[derive(Debug, Clone)]
pub struct Reson8Transcriber {
    pub api_key: String,
    pub language: Option<&'static str>,
}

impl Reson8Transcriber {
    pub fn new(api_key: String) -> (t: Self)
        ensures
            t.api_key == api_key,
            t.language matches Some(l) && l@ == "en"@,
    {
        Reson8Transcriber { api_key, language: Some("en") }
    }

    /// Who this is.
    pub fn name(&self) -> (s: &'static str)
        ensures
            s@ == "reson8"@,
    {
        "reson8"
    }

    /// The header that authorizes the request.
    pub fn authorization(&self) -> (s: String)
        ensures
            s@ == "ApiKey "@ + self.api_key@,
    {
        let mut s = "ApiKey ".to_owned();
        s.push_str(self.api_key.as_str());
        s
    }

    /// The query that names the language, where one is set.
    pub fn query(&self) -> (r: Option<(&'static str, &'static str)>)
        ensures
            match self.language {
                Some(l) => r matches Some(q) && q.0@ == "language"@ && q.1@ == l@,
                None => r is None,
            },
    {
        match self.language {
            Some(l) => Some(("language", l)),
            None => None,
        }
    }
}

} // verus!
