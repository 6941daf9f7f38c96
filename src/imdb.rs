//! The settings of a client of IMDb, and the request for the chart that they make.

use vstd::prelude::*;

use crate::language::{language_tag, Language};

verus! {

/// A header that a request to IMDb may carry.
#[derive(Clone, Copy, Debug, PartialEq, Eq, Structural)]
pub enum Header {
    AcceptLanguage,
    UserAgent,
}

/// How a client asks IMDb for its pages: the language to ask for and the `User-Agent` to send,
/// each where one was set.
#[derive(Clone, Debug)]
pub struct IMDb {
    pub lang: Option<String>,
    pub ua: Option<String>,
}

/// The headers of a request: `Accept-Language` where a language is set, then `User-Agent` where
/// one is set.
pub open spec fn request_headers_of(c: IMDb) -> Seq<(Header, Seq<char>)> {
    (if c.lang is Some {
        seq![(Header::AcceptLanguage, c.lang->0@)]
    } else {
        Seq::empty()
    }) + (if c.ua is Some {
        seq![(Header::UserAgent, c.ua->0@)]
    } else {
        Seq::empty()
    })
}

/// The path of the chart page, relative to the site's root.
pub open spec fn chart_path() -> Seq<char> {
    "chart/top"@
}

impl IMDb {
    /// Settings with no language and no `User-Agent`.
    pub fn new() -> (r: IMDb)
        ensures
            r.lang is None,
            r.ua is None,
    {
        IMDb { lang: None, ua: None }
    }

    /// Asks for pages in `lang`.
    pub fn accept_language(&mut self, lang: Language)
        ensures
            final(self).lang matches Some(l) && l@ == language_tag(lang),
            final(self).ua == old(self).ua,
    {
        self.lang = Some(lang.accept_language_header());
    }

    /// Sends `ua` as the `User-Agent`.
    pub fn user_agent(&mut self, ua: String)
        ensures
            final(self).lang == old(self).lang,
            final(self).ua == Some(ua),
    {
        self.ua = Some(ua);
    }

    /// The headers that a request with these settings carries, with their values.
    pub fn request_headers(&self) -> (r: Vec<(Header, String)>)
        ensures
            r@.map_values(|h: (Header, String)| (h.0, h.1@)) == request_headers_of(*self),
    {
        let mut headers: Vec<(Header, String)> = Vec::new();
        if let Some(lang) = &self.lang {
            headers.push((Header::AcceptLanguage, lang.clone()));
        }
        if let Some(ua) = &self.ua {
            headers.push((Header::UserAgent, ua.clone()));
        }
        assert(headers@.map_values(|h: (Header, String)| (h.0, h.1@)) =~= request_headers_of(
            *self,
        ));
        headers
    }

    /// The path of the chart page, relative to the site's root.
    pub fn top250_path() -> (r: &'static str)
        ensures
            r@ == chart_path(),
    {
        "chart/top"
    }
}

} // verus!
