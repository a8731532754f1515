use ruststream::vidking::{EmbedOptions, VidkingClient};

#[test]
fn default_options_render_the_full_query() {
    let options = EmbedOptions::default();
    assert_eq!(
        options.to_query_string(),
        "?color=e50914&autoPlay=true&nextEpisode=true&episodeSelector=true"
    );
}

#[test]
fn empty_options_render_an_empty_query() {
    let options = EmbedOptions {
        color: None,
        auto_play: false,
        next_episode: false,
        episode_selector: false,
        progress: None,
    };
    assert_eq!(options.to_query_string(), "");
}

#[test]
fn single_option_has_no_separator() {
    let options = EmbedOptions {
        color: None,
        auto_play: true,
        next_episode: false,
        episode_selector: false,
        progress: None,
    };
    assert_eq!(options.to_query_string(), "?autoPlay=true");
}

#[test]
fn progress_renders_as_a_decimal_parameter() {
    let options = EmbedOptions {
        color: None,
        auto_play: false,
        next_episode: true,
        episode_selector: false,
        progress: Some(42),
    };
    assert_eq!(options.to_query_string(), "?nextEpisode=true&progress=42");
}

#[test]
fn movie_embed_url_has_base_id_and_query() {
    let client = VidkingClient::new();
    let url = client.get_movie_embed_url(603, &EmbedOptions::default());
    assert_eq!(
        url,
        "https://www.vidking.net/embed/movie/603?color=e50914&autoPlay=true&nextEpisode=true&episodeSelector=true"
    );
}

#[test]
fn tv_embed_url_has_season_and_episode() {
    let client = VidkingClient::new();
    let options = EmbedOptions {
        color: None,
        auto_play: false,
        next_episode: false,
        episode_selector: false,
        progress: None,
    };
    let url = client.get_tv_embed_url(1399, 1, 2, &options);
    assert_eq!(url, "https://www.vidking.net/embed/tv/1399/1/2");
}

#[test]
fn movie_streams_hold_one_default_source() {
    let client = VidkingClient::new();
    let streams = client.get_movie_streams(603);
    assert_eq!(streams.len(), 1);
    let s = &streams[0];
    assert_eq!(s.id, client.get_movie_embed_url(603, &EmbedOptions::default()));
    assert_eq!(s.name, "Vidking");
    assert_eq!(s.quality.as_deref(), Some("Auto"));
    assert_eq!(s.language.as_deref(), Some("EN"));
    assert_eq!(s.server, "vidking");
}

#[test]
fn tv_streams_hold_one_default_source() {
    let client = VidkingClient::new();
    let streams = client.get_tv_streams(1399, 1, 2);
    assert_eq!(streams.len(), 1);
    assert_eq!(streams[0].id, client.get_tv_embed_url(1399, 1, 2, &EmbedOptions::default()));
    assert_eq!(streams[0].server, "vidking");
}
