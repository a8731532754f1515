//! Embed-URL generation for the video source.
//!
//! The player embeds a third-party page; this module only assembles its
//! URLs and the query string of player options.  Every character of the
//! result is pinned down by the specification functions here.

use vstd::prelude::*;
use vstd::string::*;

use crate::digits::{dec_int, i64_string};

verus! {

/// Player options carried in the embed URL's query string.
#[derive(Debug, Clone)]
pub struct EmbedOptions {
    pub color: Option<String>,
    pub auto_play: bool,
    pub next_episode: bool,
    pub episode_selector: bool,
    pub progress: Option<i64>,
}

/// Mathematical image of [`EmbedOptions`].
pub struct EmbedOptionsV {
    pub color: Option<Seq<char>>,
    pub auto_play: bool,
    pub next_episode: bool,
    pub episode_selector: bool,
    pub progress: Option<int>,
}

impl View for EmbedOptions {
    type V = EmbedOptionsV;

    open spec fn view(&self) -> EmbedOptionsV {
        EmbedOptionsV {
            color: match self.color {
                Some(c) => Some(c@),
                None => None,
            },
            auto_play: self.auto_play,
            next_episode: self.next_episode,
            episode_selector: self.episode_selector,
            progress: match self.progress {
                Some(p) => Some(p as int),
                None => None,
            },
        }
    }
}

/// The options every player starts from: the accent color, autoplay, and
/// the episode controls all on, no saved progress.
pub open spec fn default_embed_options() -> EmbedOptionsV {
    EmbedOptionsV {
        color: Some("e50914"@),
        auto_play: true,
        next_episode: true,
        episode_selector: true,
        progress: None,
    }
}

impl Default for EmbedOptions {
    fn default() -> (r: Self)
        ensures
            r@ == default_embed_options(),
    {
        EmbedOptions {
            color: Some("e50914".to_owned()),
            auto_play: true,
            next_episode: true,
            episode_selector: true,
            progress: None,
        }
    }
}

/// The query parameters an option set produces, in order.
pub open spec fn query_params(o: EmbedOptionsV) -> Seq<Seq<char>> {
    (match o.color {
        Some(c) => seq!["color="@ + c],
        None => Seq::<Seq<char>>::empty(),
    }) + (if o.auto_play {
        seq!["autoPlay=true"@]
    } else {
        Seq::<Seq<char>>::empty()
    }) + (if o.next_episode {
        seq!["nextEpisode=true"@]
    } else {
        Seq::<Seq<char>>::empty()
    }) + (if o.episode_selector {
        seq!["episodeSelector=true"@]
    } else {
        Seq::<Seq<char>>::empty()
    }) + (match o.progress {
        Some(p) => seq!["progress="@ + dec_int(p)],
        None => Seq::<Seq<char>>::empty(),
    })
}

/// Parameters joined with ampersands.
pub open spec fn join_amp(ps: Seq<Seq<char>>) -> Seq<char>
    decreases ps.len(),
{
    if ps.len() == 0 {
        Seq::<char>::empty()
    } else if ps.len() == 1 {
        ps[0]
    } else {
        join_amp(ps.drop_last()) + seq!['&'] + ps.last()
    }
}

/// The whole query string: empty without parameters, else a question mark
/// and the joined parameters.
pub open spec fn query_string_of(o: EmbedOptionsV) -> Seq<char> {
    if query_params(o).len() == 0 {
        Seq::<char>::empty()
    } else {
        seq!['?'] + join_amp(query_params(o))
    }
}

/// The embed URL of a movie.
pub open spec fn movie_embed_url(tmdb_id: int, o: EmbedOptionsV) -> Seq<char> {
    "https://www.vidking.net/embed/movie/"@ + dec_int(tmdb_id) + query_string_of(o)
}

/// The embed URL of one episode of a show.
pub open spec fn tv_embed_url(tmdb_id: int, season: int, episode: int, o: EmbedOptionsV) -> Seq<
    char,
> {
    "https://www.vidking.net/embed/tv/"@ + dec_int(tmdb_id) + seq!['/'] + dec_int(season)
        + seq!['/'] + dec_int(episode) + query_string_of(o)
}

/// The views of a string sequence.
pub open spec fn strs_view(v: Seq<String>) -> Seq<Seq<char>> {
    v.map_values(|s: String| s@)
}

impl EmbedOptions {
    /// Renders the options as a URL query string, exactly as
    /// [`query_string_of`] states it.
    pub fn to_query_string(&self) -> (r: String)
        ensures
            r@ == query_string_of(self@),
    {
        let mut params: Vec<String> = Vec::new();
        proof {
            assert(strs_view(params@) =~= Seq::<Seq<char>>::empty());
        }
        match &self.color {
            Some(c) => {
                let mut p: String = "color=".to_owned();
                p.append(c.as_str());
                let ghost pre = params@;
                params.push(p);
                proof {
                    assert(strs_view(params@) =~= strs_view(pre).push("color="@ + c@));
                }
            },
            None => {},
        }
        if self.auto_play {
            let ghost pre = params@;
            params.push("autoPlay=true".to_owned());
            proof {
                assert(strs_view(params@) =~= strs_view(pre).push("autoPlay=true"@));
            }
        }
        if self.next_episode {
            let ghost pre = params@;
            params.push("nextEpisode=true".to_owned());
            proof {
                assert(strs_view(params@) =~= strs_view(pre).push("nextEpisode=true"@));
            }
        }
        if self.episode_selector {
            let ghost pre = params@;
            params.push("episodeSelector=true".to_owned());
            proof {
                assert(strs_view(params@) =~= strs_view(pre).push("episodeSelector=true"@));
            }
        }
        match self.progress {
            Some(pr) => {
                let mut p: String = "progress=".to_owned();
                p.append(i64_string(pr).as_str());
                let ghost pre = params@;
                params.push(p);
                proof {
                    assert(strs_view(params@) =~= strs_view(pre).push(
                        "progress="@ + dec_int(pr as int),
                    ));
                }
            },
            None => {},
        }
        proof {
            assert(strs_view(params@) =~= query_params(self@));
        }
        if params.len() == 0 {
            let r = String::new();
            return r;
        }
        proof {
            reveal_strlit("?");
            reveal_strlit("&");
        }
        let mut r: String = "?".to_owned();
        let n = params.len();
        let mut i: usize = 0;
        while i < n
            invariant
                i <= n,
                n == params@.len(),
                n > 0,
                strs_view(params@) == query_params(self@),
                "?"@ == seq!['?'],
                "&"@ == seq!['&'],
                i == 0 ==> r@ == seq!['?'],
                i > 0 ==> r@ == seq!['?'] + join_amp(strs_view(params@).take(i as int)),
            decreases n - i,
        {
            if i > 0 {
                r.append("&");
            }
            r.append(params[i].as_str());
            proof {
                let ps = strs_view(params@);
                assert(ps.take(i + 1).drop_last() =~= ps.take(i as int));
                assert(ps.take(i + 1).last() == ps[i as int]);
                if i == 0 {
                    assert(join_amp(ps.take(1)) == ps[0]);
                    assert(r@ =~= seq!['?'] + join_amp(ps.take(1)));
                } else {
                    assert(r@ =~= seq!['?'] + join_amp(ps.take(i + 1)));
                }
            }
            i += 1;
        }
        proof {
            assert(strs_view(params@).take(n as int) =~= strs_view(params@));
        }
        r
    }
}

/// One playable source handed to the player page.
#[derive(Debug, Clone)]
pub struct StreamSource {
    pub id: String,
    pub name: String,
    pub quality: Option<String>,
    pub language: Option<String>,
    pub server: String,
}

/// Mathematical image of a [`StreamSource`].
pub struct StreamSourceV {
    pub id: Seq<char>,
    pub name: Seq<char>,
    pub quality: Option<Seq<char>>,
    pub language: Option<Seq<char>>,
    pub server: Seq<char>,
}

impl View for StreamSource {
    type V = StreamSourceV;

    open spec fn view(&self) -> StreamSourceV {
        StreamSourceV {
            id: self.id@,
            name: self.name@,
            quality: match self.quality {
                Some(q) => Some(q@),
                None => None,
            },
            language: match self.language {
                Some(l) => Some(l@),
                None => None,
            },
            server: self.server@,
        }
    }
}

/// The embed-URL generator for the video source.
#[derive(Debug, Clone, Copy)]
pub struct VidkingClient;

impl VidkingClient {
    /// A new client; the generator carries no state.
    pub fn new() -> (r: Self) {
        VidkingClient
    }

    /// The embed URL of a movie, exactly as [`movie_embed_url`] states it.
    pub fn get_movie_embed_url(&self, tmdb_id: i64, options: &EmbedOptions) -> (r: String)
        ensures
            r@ == movie_embed_url(tmdb_id as int, options@),
    {
        let mut url: String = "https://www.vidking.net/embed/movie/".to_owned();
        url.append(i64_string(tmdb_id).as_str());
        url.append(options.to_query_string().as_str());
        url
    }

    /// The embed URL of one episode, exactly as [`tv_embed_url`] states it.
    pub fn get_tv_embed_url(
        &self,
        tmdb_id: i64,
        season: i64,
        episode: i64,
        options: &EmbedOptions,
    ) -> (r: String)
        ensures
            r@ == tv_embed_url(tmdb_id as int, season as int, episode as int, options@),
    {
        proof {
            reveal_strlit("/");
        }
        let mut url: String = "https://www.vidking.net/embed/tv/".to_owned();
        url.append(i64_string(tmdb_id).as_str());
        url.append("/");
        url.append(i64_string(season).as_str());
        url.append("/");
        url.append(i64_string(episode).as_str());
        url.append(options.to_query_string().as_str());
        proof {
            assert(url@ =~= tv_embed_url(
                tmdb_id as int,
                season as int,
                episode as int,
                options@,
            ));
        }
        url
    }

    /// The single playable source of a movie: the default-option embed URL
    /// under the fixed source name.
    pub fn get_movie_streams(&self, tmdb_id: i64) -> (r: Vec<StreamSource>)
        ensures
            r@.len() == 1,
            r@[0]@.id == movie_embed_url(tmdb_id as int, default_embed_options()),
            r@[0]@.name == "Vidking"@,
            r@[0]@.quality == Some("Auto"@),
            r@[0]@.language == Some("EN"@),
            r@[0]@.server == "vidking"@,
    {
        let options = EmbedOptions::default();
        let url = self.get_movie_embed_url(tmdb_id, &options);
        let mut streams: Vec<StreamSource> = Vec::new();
        streams.push(
            StreamSource {
                id: url,
                name: "Vidking".to_owned(),
                quality: Some("Auto".to_owned()),
                language: Some("EN".to_owned()),
                server: "vidking".to_owned(),
            },
        );
        streams
    }

    /// The single playable source of one episode.
    pub fn get_tv_streams(&self, tmdb_id: i64, season: i64, episode: i64) -> (r: Vec<
        StreamSource,
    >)
        ensures
            r@.len() == 1,
            r@[0]@.id == tv_embed_url(
                tmdb_id as int,
                season as int,
                episode as int,
                default_embed_options(),
            ),
            r@[0]@.name == "Vidking"@,
            r@[0]@.quality == Some("Auto"@),
            r@[0]@.language == Some("EN"@),
            r@[0]@.server == "vidking"@,
    {
        let options = EmbedOptions::default();
        let url = self.get_tv_embed_url(tmdb_id, season, episode, &options);
        let mut streams: Vec<StreamSource> = Vec::new();
        streams.push(
            StreamSource {
                id: url,
                name: "Vidking".to_owned(),
                quality: Some("Auto".to_owned()),
                language: Some("EN".to_owned()),
                server: "vidking".to_owned(),
            },
        );
        streams
    }
}

} // verus!
