use timhatdiehandandermaus::api::ApiError;
use timhatdiehandandermaus::movie::{
    failure_placeholder, separator_token, ImdbCover, ImdbMovie, Movie, Movies,
};
use timhatdiehandandermaus::segment::MessageChunk;
use timhatdiehandandermaus::status::MovieStatus;

fn movie(id: &str, title: &str, year: u32, rating: &str) -> Movie {
    Movie {
        id: id.to_string(),
        imdb: ImdbMovie {
            id: format!("tt{}", id),
            title: title.to_string(),
            year,
            rating: rating.to_string(),
            cover: ImdbCover { url: "https://covers/x.jpg".to_string(), ratio_bits: 0x3f2aaaab },
        },
        status: MovieStatus::Queued,
    }
}

#[test]
fn separator_is_a_star() {
    assert_eq!(separator_token(), "\u{2b50}");
    assert_eq!(separator_token().chars().count(), 1);
}

#[test]
fn line_of_an_item() {
    assert_eq!(movie("1", "Alien", 1979, "8.5").to_string(), "Alien (1979) 8.5\u{2b50}");
    assert_eq!(movie("2", "", 0, "").to_string(), " (0) \u{2b50}");
}

#[test]
fn line_of_a_failed_item() {
    assert_eq!(failure_placeholder(), "failed to retrieve movie: 0\u{2b50}");
    assert_eq!(failure_placeholder().matches('\u{2b50}').count(), 1);
}

#[test]
fn rendering_keeps_order_and_count() {
    let movies = Movies {
        movies: vec![
            Ok(movie("1", "Alien", 1979, "8.5")),
            Err(ApiError::Transport("timed out".to_string())),
            Ok(movie("3", "Heat", 1995, "8.3")),
        ],
    };
    let text = movies.render();
    assert_eq!(
        text,
        "Alien (1979) 8.5\u{2b50}failed to retrieve movie: 0\u{2b50}Heat (1995) 8.3\u{2b50}"
    );
    assert_eq!(text.matches('\u{2b50}').count(), 3);
}

#[test]
fn every_kind_of_failure_renders_as_the_placeholder() {
    let movies = Movies {
        movies: vec![
            Err(ApiError::Transport("a".to_string())),
            Err(ApiError::Decode("b".to_string())),
            Err(ApiError::Service { status: 404, message: "c".to_string() }),
            Err(ApiError::Conflict),
        ],
    };
    assert_eq!(movies.render(), failure_placeholder().repeat(4));
}

#[test]
fn rendering_nothing_gives_nothing() {
    assert_eq!(Movies { movies: vec![] }.render(), "");
    assert_eq!(Movies { movies: vec![] }.to_messages(4096), vec![]);
}

#[test]
fn messages_within_a_large_limit_are_one_chunk() {
    let movies = Movies {
        movies: vec![
            Ok(movie("1", "Alien", 1979, "8.5")),
            Err(ApiError::Transport("timed out".to_string())),
            Ok(movie("3", "Heat", 1995, "8.3")),
        ],
    };
    assert_eq!(
        movies.to_messages(4096),
        vec![MessageChunk { sequence_index: 0, text: movies.render() }]
    );
}

#[test]
fn messages_are_cut_after_lines() {
    let movies = Movies {
        movies: vec![
            Ok(movie("1", "Alien", 1979, "8.5")),
            Err(ApiError::Transport("timed out".to_string())),
            Ok(movie("3", "Heat", 1995, "8.3")),
        ],
    };
    let chunks: Vec<String> = movies.to_messages(30).into_iter().map(|c| c.text).collect();
    assert_eq!(
        chunks,
        vec![
            "Alien (1979) 8.5\u{2b50}",
            "failed to retrieve movie: 0\u{2b50}",
            "Heat (1995) 8.3\u{2b50}",
        ]
    );
    let chunks: Vec<String> = movies.to_messages(45).into_iter().map(|c| c.text).collect();
    assert_eq!(
        chunks,
        vec![
            "Alien (1979) 8.5\u{2b50}failed to retrieve movie: 0\u{2b50}",
            "Heat (1995) 8.3\u{2b50}",
        ]
    );
}

#[test]
fn lines_within_the_limit_give_messages_within_the_limit() {
    let movies = Movies {
        movies: vec![
            Ok(movie("1", "Alien", 1979, "8.5")),
            Err(ApiError::Transport("timed out".to_string())),
            Ok(movie("3", "Heat", 1995, "8.3")),
            Ok(movie("4", "A \u{2b50} is born", 2018, "7.6")),
        ],
    };
    for max in 28..120usize {
        for chunk in movies.to_messages(max) {
            assert!(chunk.text.chars().count() <= max);
        }
    }
}
