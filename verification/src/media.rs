//! The media a watch-history entry can point at, and the attributes of a
//! series that a report keeps.

use vstd::prelude::*;
use crate::text::{clone_strings, texts};

verus! {

/// Position, in a series' ordered list of tall poster images, of the one a
/// report shows.
pub const POSTER_INDEX: usize = 2;

/// What the provider tells about a series.
#[derive(Debug)]
pub struct Series {
    pub title: String,
    pub slug_title: String,
    pub description: String,
    pub extended_description: String,
    pub episode_count: u32,
    pub season_count: u32,
    pub content_provider: Option<String>,
    pub keywords: Vec<String>,
    /// Source URLs of the tall poster images, in the provider's order.
    pub poster_tall: Vec<String>,
}

/// A resolved media object. Only movies, series and episodes carry a display
/// title; every other kind is `Other`.
#[derive(Debug)]
pub enum Media {
    Movie { title: String },
    Series(Series),
    Episode { title: String },
    Other,
}

/// The attributes of a series that are captured the first time its title is
/// counted.
#[derive(Debug)]
pub struct SeriesMetadata {
    pub title: String,
    pub slug: String,
    pub description: String,
    pub extended_description: String,
    pub episodes: u32,
    pub seasons: u32,
    pub publisher: String,
    pub keywords: Vec<String>,
    pub poster_tall: String,
}

/// A series by the character sequences of its texts.
pub struct SeriesView {
    pub title: Seq<char>,
    pub slug_title: Seq<char>,
    pub description: Seq<char>,
    pub extended_description: Seq<char>,
    pub episode_count: u32,
    pub season_count: u32,
    pub content_provider: Option<Seq<char>>,
    pub keywords: Seq<Seq<char>>,
    pub poster_tall: Seq<Seq<char>>,
}

/// A media object by the character sequences of its texts.
pub enum MediaView {
    Movie { title: Seq<char> },
    Series(SeriesView),
    Episode { title: Seq<char> },
    Other,
}

/// Captured metadata by the character sequences of its texts.
pub struct MetadataView {
    pub title: Seq<char>,
    pub slug: Seq<char>,
    pub description: Seq<char>,
    pub extended_description: Seq<char>,
    pub episodes: u32,
    pub seasons: u32,
    pub publisher: Seq<char>,
    pub keywords: Seq<Seq<char>>,
    pub poster_tall: Seq<char>,
}

/// Publisher shown for a series whose provider names none.
pub open spec fn unknown_publisher() -> Seq<char> {
    "Unknown"@
}

/// Poster shown for a series that has no tall poster at `POSTER_INDEX`.
pub open spec fn no_image() -> Seq<char> {
    "No image available"@
}

/// The metadata captured from a series: its attributes as they are, with a
/// placeholder where the provider left the publisher out or lists too few
/// tall posters.
pub open spec fn metadata_of(series: SeriesView) -> MetadataView {
    MetadataView {
        title: series.title,
        slug: series.slug_title,
        description: series.description,
        extended_description: series.extended_description,
        episodes: series.episode_count,
        seasons: series.season_count,
        publisher: match series.content_provider {
            Some(name) => name,
            None => unknown_publisher(),
        },
        keywords: series.keywords,
        poster_tall: if POSTER_INDEX < series.poster_tall.len() {
            series.poster_tall[POSTER_INDEX as int]
        } else {
            no_image()
        },
    }
}

impl View for Series {
    type V = SeriesView;

    open spec fn view(&self) -> SeriesView {
        SeriesView {
            title: self.title@,
            slug_title: self.slug_title@,
            description: self.description@,
            extended_description: self.extended_description@,
            episode_count: self.episode_count,
            season_count: self.season_count,
            content_provider: match self.content_provider {
                Some(name) => Some(name@),
                None => None,
            },
            keywords: texts(self.keywords@),
            poster_tall: texts(self.poster_tall@),
        }
    }
}

impl View for Media {
    type V = MediaView;

    open spec fn view(&self) -> MediaView {
        match self {
            Media::Movie { title } => MediaView::Movie { title: title@ },
            Media::Series(series) => MediaView::Series(series@),
            Media::Episode { title } => MediaView::Episode { title: title@ },
            Media::Other => MediaView::Other,
        }
    }
}

impl View for SeriesMetadata {
    type V = MetadataView;

    open spec fn view(&self) -> MetadataView {
        MetadataView {
            title: self.title@,
            slug: self.slug@,
            description: self.description@,
            extended_description: self.extended_description@,
            episodes: self.episodes,
            seasons: self.seasons,
            publisher: self.publisher@,
            keywords: texts(self.keywords@),
            poster_tall: self.poster_tall@,
        }
    }
}

impl MediaView {
    /// The display title, for the kinds of media that have one.
    pub open spec fn title(self) -> Option<Seq<char>> {
        match self {
            MediaView::Movie { title } => Some(title),
            MediaView::Series(series) => Some(series.title),
            MediaView::Episode { title } => Some(title),
            MediaView::Other => None,
        }
    }
}

impl Media {
    /// The display title, for the kinds of media that have one.
    pub fn title(&self) -> (title: Option<&String>)
        ensures
            match title {
                Some(t) => self@.title() == Some(t@),
                None => self@.title() is None,
            },
    {
        match self {
            Media::Movie { title } => Some(title),
            Media::Series(series) => Some(&series.title),
            Media::Episode { title } => Some(title),
            Media::Other => None,
        }
    }
}

impl SeriesMetadata {
    /// Captures the metadata of a series.
    pub fn from_series(series: &Series) -> (meta: SeriesMetadata)
        ensures
            meta@ == metadata_of(series@),
    {
        let publisher = match &series.content_provider {
            Some(name) => name.clone(),
            None => "Unknown".to_owned(),
        };
        let poster_tall = if POSTER_INDEX < series.poster_tall.len() {
            series.poster_tall[POSTER_INDEX].clone()
        } else {
            "No image available".to_owned()
        };
        SeriesMetadata {
            title: series.title.clone(),
            slug: series.slug_title.clone(),
            description: series.description.clone(),
            extended_description: series.extended_description.clone(),
            episodes: series.episode_count,
            seasons: series.season_count,
            publisher,
            keywords: clone_strings(&series.keywords),
            poster_tall,
        }
    }
}

impl Clone for SeriesMetadata {
    fn clone(&self) -> (copy: SeriesMetadata)
        ensures
            copy@ == self@,
    {
        SeriesMetadata {
            title: self.title.clone(),
            slug: self.slug.clone(),
            description: self.description.clone(),
            extended_description: self.extended_description.clone(),
            episodes: self.episodes,
            seasons: self.seasons,
            publisher: self.publisher.clone(),
            keywords: clone_strings(&self.keywords),
            poster_tall: self.poster_tall.clone(),
        }
    }
}

} // verus!
