//! Where a document belongs on a site: the segments of its path and the
//! name of its file.

use vstd::prelude::*;
use vstd::string::StringExecFns;

verus! {

/// A path for a route in an HTML document.
#[derive(Clone, Debug, PartialEq, Eq)]
pub struct RoutePath {
    /// The segments of the path.
    segments: Vec<String>,
    /// The (optional) filename for this path.
    filename: Option<String>,
}

/// What a route path holds.
pub struct RoutePathView {
    pub segments: Seq<Seq<char>>,
    pub filename: Option<Seq<char>>,
}

/// What a list of strings holds.
pub open spec fn string_views(strings: Seq<String>) -> Seq<Seq<char>> {
    Seq::new(strings.len(), |i: int| strings[i]@)
}

impl View for RoutePath {
    type V = RoutePathView;

    closed spec fn view(&self) -> RoutePathView {
        RoutePathView {
            segments: string_views(self.segments@),
            filename: match self.filename {
                Some(f) => Some(f@),
                None => None,
            },
        }
    }
}

/// The segments, each behind a `/`.
pub open spec fn slashed(segments: Seq<Seq<char>>) -> Seq<char>
    decreases segments.len(),
{
    if segments.len() == 0 {
        Seq::empty()
    } else {
        slashed(segments.drop_last()) + seq!['/'] + segments.last()
    }
}

/// The directory part of a URL path: `/` alone without segments, else the
/// segments each behind a `/`, and a last `/` unless the last segment
/// ends in one.
pub open spec fn url_directory(segments: Seq<Seq<char>>) -> Seq<char> {
    let path = slashed(segments);
    if path.len() > 0 && path.last() == '/' {
        path
    } else {
        path.push('/')
    }
}

/// The URL path of a route: its directory part, then the file name if one
/// is set.
pub open spec fn url_path_of(route: RoutePathView) -> Seq<char> {
    match route.filename {
        Some(f) => url_directory(route.segments) + f,
        None => url_directory(route.segments),
    }
}

/// The file name of a route: `index.html` unless one is set.
pub open spec fn filename_of(route: RoutePathView) -> Seq<char> {
    match route.filename {
        Some(f) => f,
        None => "index.html"@,
    }
}

impl RoutePath {
    /// Create a new route path from a list of segments.
    pub fn new(segments: Vec<String>, filename: Option<&str>) -> (route: RoutePath)
        ensures
            route@.segments == string_views(segments@),
            match filename {
                Some(f) => route@.filename == Some(f@),
                None => route@.filename is None,
            },
    {
        match filename {
            Some(f) => RoutePath { segments, filename: Some(f.to_owned()) },
            None => RoutePath { segments, filename: None },
        }
    }

    /// Set the `filename` of this [`RoutePath`].
    pub fn with_filename(self, filename: &str) -> (route: RoutePath)
        ensures
            route@ == (RoutePathView { segments: self@.segments, filename: Some(filename@) }),
    {
        RoutePath { segments: self.segments, filename: Some(filename.to_owned()) }
    }

    /// The segments of this [`RoutePath`].
    pub fn segments(&self) -> (segments: &Vec<String>)
        ensures
            string_views(segments@) == self@.segments,
    {
        &self.segments
    }

    /// Whether a `filename` is set.
    pub fn has_filename(&self) -> (b: bool)
        ensures
            b == (self@.filename is Some),
    {
        self.filename.is_some()
    }

    /// Get the `filename` of this [`RoutePath`].
    ///
    /// If no `filename` is present, this will use `index.html` instead.
    pub fn filename(&self) -> (name: &str)
        ensures
            name@ == filename_of(self@),
    {
        match &self.filename {
            Some(f) => f.as_str(),
            None => "index.html",
        }
    }

    /// Get the URL path for the route (i.e. the path that should be used
    /// in the URL).
    ///
    /// This always starts with a `/`, and ends with one unless a
    /// `filename` is set.
    pub fn url_path(&self) -> (path: String)
        ensures
            path@ == url_path_of(self@),
    {
        let mut path = String::new();
        let ghost views = string_views(self.segments@);
        let mut ends_in_slash = false;
        let mut i: usize = 0;
        assert(views.take(0) =~= Seq::empty());
        while i < self.segments.len()
            invariant
                i <= self.segments.len(),
                views == string_views(self.segments@),
                path@ == slashed(views.take(i as int)),
                ends_in_slash == (path@.len() > 0 && path@.last() == '/'),
            decreases self.segments.len() - i,
        {
            let segment = &self.segments[i];
            path.push('/');
            path.append(segment.as_str());
            let chars = crate::text::chars_of(segment.as_str());
            ends_in_slash = if chars.len() == 0 {
                true
            } else {
                chars[chars.len() - 1] == '/'
            };
            proof {
                assert(views.take(i + 1).drop_last() =~= views.take(i as int));
                assert(views.take(i + 1).last() == segment@);
                assert(path@ =~= slashed(views.take(i + 1)));
            }
            i += 1;
        }
        assert(views.take(i as int) =~= views);
        if !ends_in_slash {
            path.push('/');
        }
        match &self.filename {
            Some(f) => {
                path.append(f.as_str());
            },
            None => {},
        }
        path
    }

    /// Get the absolute URL for the route (i.e. the URL that points to
    /// this route).
    pub fn abs_url(&self, domain: &str) -> (url: String)
        ensures
            url@ == domain@ + url_path_of(self@),
    {
        let mut url = domain.to_owned();
        let path = self.url_path();
        url.append(path.as_str());
        url
    }
}

} // verus!
