use timhatdiehandandermaus::address::Address;
use timhatdiehandandermaus::api::{Api, ApiError, Method, Request, RequestBody};
use timhatdiehandandermaus::command::{
    add_movie_reply, add_movie_usage, admission, delete_movie_reply, delete_movie_usage,
    movie_poll, movie_poll_options, poll_default_options, Command, CommandTypeMovieRating,
    InvalidRating, Step,
};
use timhatdiehandandermaus::resolver::{
    SearchItem, StreamingproviderResolverResponse, StreamingproviderResolverResponseItem,
};
use timhatdiehandandermaus::segment::MessageChunk;
use timhatdiehandandermaus::movie::{ImdbCover, ImdbMovie, Movie, Movies};
use timhatdiehandandermaus::status::MovieStatus;

fn movie(id: &str, title: &str, year: u32, rating: &str) -> Movie {
    Movie {
        id: id.to_string(),
        imdb: ImdbMovie {
            id: format!("tt{}", id),
            title: title.to_string(),
            year,
            rating: rating.to_string(),
            cover: ImdbCover { url: "https://covers/x.jpg".to_string(), ratio_bits: 0x3f2aaaab },
        },
        status: MovieStatus::Queued,
    }
}

fn rating(id: &str, rating: u8) -> Result<CommandTypeMovieRating, InvalidRating> {
    Ok(CommandTypeMovieRating { movie_id: id.to_string(), rating })
}

fn invalid(text: &str) -> Result<CommandTypeMovieRating, InvalidRating> {
    Err(InvalidRating { text: text.to_string() })
}

#[test]
fn rating_argument() {
    assert_eq!(CommandTypeMovieRating::from_str("tt0078748 9"), rating("tt0078748", 9));
    assert_eq!(CommandTypeMovieRating::from_str("x 10"), rating("x", 10));
    assert_eq!(CommandTypeMovieRating::from_str(" 10"), rating("", 10));
}

#[test]
fn rating_argument_without_a_space_is_both_parts() {
    assert_eq!(CommandTypeMovieRating::from_str("7"), rating("7", 7));
    assert_eq!(CommandTypeMovieRating::from_str("tt0078748"), invalid("tt0078748"));
    assert_eq!(CommandTypeMovieRating::from_str(""), invalid(""));
}

#[test]
fn rating_argument_with_an_unreadable_rating() {
    assert_eq!(CommandTypeMovieRating::from_str("x 300"), invalid("300"));
    assert_eq!(CommandTypeMovieRating::from_str("x "), invalid(""));
    assert_eq!(CommandTypeMovieRating::from_str("x 1 2"), invalid("1 2"));
    assert_eq!(CommandTypeMovieRating::from_str("x  1"), invalid(" 1"));
}

#[test]
fn rating_argument_from_parts() {
    assert_eq!(CommandTypeMovieRating::try_from(vec!["x", "10"]), rating("x", 10));
    assert_eq!(CommandTypeMovieRating::try_from(vec!["x", "y", "3"]), rating("x", 3));
    assert_eq!(CommandTypeMovieRating::try_from(vec!["5"]), rating("5", 5));
    assert_eq!(CommandTypeMovieRating::try_from(vec!["x", "y"]), invalid("y"));
}

#[test]
fn outcome_of_a_command() {
    assert_eq!(
        Command::wade_through("add_movie", Ok(movie("1", "Alien", 1979, "8.5"))),
        Ok("Alien (1979) 8.5\u{2b50}".to_string())
    );
    assert_eq!(
        Command::wade_through("add_movie", Err(ApiError::Decode("missing field `id`".to_string()))),
        Err("[ add_movie[0]: failed decoding body: decode failure: missing field `id` ]"
            .to_string())
    );
    assert_eq!(
        Command::wade_through("add_movie", Err(ApiError::Transport("timed out".to_string()))),
        Err("[ add_movie[1]: failed making api request: transport failure: timed out ]"
            .to_string())
    );
    assert_eq!(
        Command::wade_through("delete_movie", Err(ApiError::Conflict)),
        Err("[ delete_movie[1]: failed making api request: movie already exists ]".to_string())
    );
    assert_eq!(
        Command::wade_through(
            "x",
            Err(ApiError::Service { status: 500, message: "down".to_string() })
        ),
        Err("[ x[1]: failed making api request: service failure (500): down ]".to_string())
    );
}

#[test]
fn replies_to_adding() {
    assert_eq!(add_movie_usage(), "`/add` must be followed by an imdb URL you idiot");
    assert_eq!(
        add_movie_reply(Ok(movie("1", "Alien", 1979, "8.5"))),
        "Alien (1979) 8.5\u{2b50}"
    );
    assert_eq!(
        add_movie_reply(Err(ApiError::Conflict)),
        "[ add_movie[2]: [ add_movie[1]: failed making api request: movie already exists ] ]"
    );
}

#[test]
fn replies_to_removing() {
    assert_eq!(
        delete_movie_usage(""),
        Some("`/(delete|watch)` must be followed by a movie title you idiot".to_string())
    );
    assert_eq!(delete_movie_usage("Alien"), None);
    assert_eq!(delete_movie_usage(" "), None);
    assert_eq!(delete_movie_reply("Alien", None), "couldn't find 'Alien' in queue");
    assert_eq!(
        delete_movie_reply("Alien", Some(Ok(movie("1", "Alien", 1979, "8.5")))),
        "Alien (1979) 8.5\u{2b50}"
    );
    assert_eq!(
        delete_movie_reply("Alien", Some(Err(ApiError::Decode("bad".to_string())))),
        "[ delete_movie[2]: [ delete_movie[0]: failed decoding body: decode failure: bad ] ]"
    );
}

#[test]
fn replies_to_showing() {
    let queue = Ok(Movies {
        movies: vec![
            Err(ApiError::Conflict),
            Ok(movie("1", "Alien", 1979, "8.5")),
            Ok(movie("2", "Alien", 2003, "8.6")),
        ],
    });
    assert_eq!(Command::get("Alien", &queue), "Alien (1979) 8.5\u{2b50}");
    assert_eq!(Command::get("Aliens", &queue), "Aliens couldn't be found in queue");
    assert_eq!(Command::get("", &queue), " couldn't be found in queue");
    assert_eq!(
        Command::get("Alien", &Err(ApiError::Transport("timed out".to_string()))),
        "[ get[2]: transport failure: timed out ]"
    );
}

#[test]
fn item_is_found_by_its_exact_title() {
    let movies = Movies {
        movies: vec![
            Err(ApiError::Conflict),
            Ok(movie("1", "Alien", 1979, "8.5")),
            Ok(movie("2", "Aliens", 1986, "8.4")),
            Ok(movie("3", "Alien", 2003, "8.6")),
        ],
    };
    assert_eq!(movies.find_by_title("Alien"), Some(&movie("1", "Alien", 1979, "8.5")));
    assert_eq!(movies.find_by_title("Aliens"), Some(&movie("2", "Aliens", 1986, "8.4")));
    assert_eq!(movies.find_by_title("alien"), None);
    assert_eq!(movies.find_by_title("Alie"), None);
    assert_eq!(movies.find_by_title(""), None);
    assert_eq!(Movies { movies: vec![] }.find_by_title("Alien"), None);
}

#[test]
fn poll_options_leave_room_for_the_defaults() {
    let movies = Movies {
        movies: vec![
            Ok(movie("1", "Alien", 1979, "8.5")),
            Err(ApiError::Conflict),
            Ok(movie("2", "Aliens", 1986, "8.4")),
            Ok(movie("3", "Heat", 1995, "8.3")),
        ],
    };
    let defaults = vec!["Mir egal".to_string()];
    assert_eq!(
        movie_poll_options(&movies, defaults.clone(), 10),
        vec![
            "Alien (1979) 8.5\u{2b50}",
            "Aliens (1986) 8.4\u{2b50}",
            "Heat (1995) 8.3\u{2b50}",
            "Mir egal"
        ]
    );
    assert_eq!(
        movie_poll_options(&movies, defaults.clone(), 3),
        vec!["Alien (1979) 8.5\u{2b50}", "Aliens (1986) 8.4\u{2b50}", "Mir egal"]
    );
    assert_eq!(movie_poll_options(&movies, defaults.clone(), 1), vec!["Mir egal"]);
    assert_eq!(
        movie_poll_options(&movies, vec![], 2),
        vec!["Alien (1979) 8.5\u{2b50}", "Aliens (1986) 8.4\u{2b50}"]
    );
    assert_eq!(movie_poll_options(&movies, vec![], 0), Vec::<String>::new());
    assert_eq!(movie_poll_options(&Movies { movies: vec![] }, defaults, 10), vec!["Mir egal"]);
}

fn catalog() -> Api {
    Api::new(Address::parse("http://api").unwrap())
}

#[test]
fn only_the_admitted_chat_is_answered() {
    assert_eq!(admission(42, 42), None);
    assert_eq!(admission(-7, -7), None);
    assert_eq!(admission(41, 42), Some("You're not allowed to use this bot".to_string()));
    assert_eq!(admission(-42, 42), Some("You're not allowed to use this bot".to_string()));
}

#[test]
fn adding_without_a_source_answers_how_to() {
    assert_eq!(Command::add_movie(&catalog(), ""), Ok(Step::Reply(add_movie_usage())));
}

#[test]
fn adding_a_source_that_is_no_url_is_refused() {
    assert_eq!(
        Command::add_movie(&catalog(), "tt0078748").unwrap_err().reason,
        "relative URL without a base"
    );
    assert_eq!(
        Command::add_movie(&catalog(), " ").unwrap_err().reason,
        "relative URL without a base"
    );
}

#[test]
fn adding_a_source_sends_the_request() {
    assert_eq!(
        Command::add_movie(&catalog(), "HTTPS://www.imdb.com/title/tt0078748"),
        Ok(Step::Send(Request {
            method: Method::Put,
            url: Address::parse("http://api/movie").unwrap(),
            body: RequestBody::AddMovie {
                imdb_url: "https://www.imdb.com/title/tt0078748".to_string()
            },
        }))
    );
}

#[test]
fn adding_at_a_base_without_hierarchy_answers_the_failure() {
    let api = Api::new(Address::parse("mailto:someone@example.com").unwrap());
    assert_eq!(
        Command::add_movie(&api, "https://www.imdb.com/title/tt0078748"),
        Ok(Step::Reply(
            "[ add_movie[2]: [ add_movie[1]: failed making api request: transport failure: \
             relative URL with a cannot-be-a-base base ] ]"
                .to_string()
        ))
    );
}

#[test]
fn removing_sends_the_request_for_the_first_item_of_that_title() {
    let movies = Movies {
        movies: vec![
            Err(ApiError::Conflict),
            Ok(movie("7", "Alien", 1979, "8.5")),
            Ok(movie("8", "Alien", 2003, "8.6")),
        ],
    };
    assert_eq!(
        Command::delete_movie(&catalog(), "Alien", &movies, MovieStatus::Watched),
        Step::Send(Request {
            method: Method::Delete,
            url: Address::parse("http://api/queue/7?status=Watched").unwrap(),
            body: RequestBody::Empty,
        })
    );
    assert_eq!(
        Command::delete_movie(&catalog(), "Alien", &movies, MovieStatus::Deleted),
        Step::Send(Request {
            method: Method::Delete,
            url: Address::parse("http://api/queue/7?status=Deleted").unwrap(),
            body: RequestBody::Empty,
        })
    );
    assert_eq!(
        Command::delete_movie(&catalog(), "Aliens", &movies, MovieStatus::Deleted),
        Step::Reply("couldn't find 'Aliens' in queue".to_string())
    );
}

#[test]
fn removing_without_a_title_answers_how_to_and_sends_nothing() {
    let usage = "`/(delete|watch)` must be followed by a movie title you idiot".to_string();
    let untitled = Movies {
        movies: vec![Ok(movie("7", "", 1979, "8.5")), Ok(movie("8", "Alien", 2003, "8.6"))],
    };
    for status in [MovieStatus::Deleted, MovieStatus::Watched, MovieStatus::Queued] {
        assert_eq!(
            Command::delete_movie(&catalog(), "", &untitled, status),
            Step::Reply(usage.clone())
        );
        assert_eq!(
            Command::delete_movie(&catalog(), "", &Movies { movies: vec![] }, status),
            Step::Reply(usage.clone())
        );
    }
    let nowhere = Api::new(Address::parse("mailto:someone@example.com").unwrap());
    assert_eq!(
        Command::delete_movie(&nowhere, "", &untitled, MovieStatus::Deleted),
        Step::Reply(usage)
    );
}

#[test]
fn removing_at_a_base_without_hierarchy_answers_the_failure() {
    let nowhere = Api::new(Address::parse("mailto:someone@example.com").unwrap());
    let movies = Movies { movies: vec![Ok(movie("7", "Alien", 1979, "8.5"))] };
    assert_eq!(
        Command::delete_movie(&nowhere, "Alien", &movies, MovieStatus::Deleted),
        Step::Reply(
            "[ delete_movie[2]: [ delete_movie[1]: failed making api request: transport \
             failure: relative URL with a cannot-be-a-base base ] ]"
                .to_string()
        )
    );
}

#[test]
fn default_options_are_the_trimmed_parts_between_commas() {
    assert_eq!(poll_default_options("Mir egal"), vec!["Mir egal"]);
    assert_eq!(
        poll_default_options("Dabei,Nicht dabei,Spontan"),
        vec!["Dabei", "Nicht dabei", "Spontan"]
    );
    assert_eq!(poll_default_options(" a , b\t,\nc "), vec!["a", "b", "c"]);
    assert_eq!(poll_default_options(""), vec![""]);
    assert_eq!(poll_default_options(","), vec!["", ""]);
    assert_eq!(poll_default_options("a,,b,"), vec!["a", "", "b", ""]);
    assert_eq!(poll_default_options("  ,   "), vec!["", ""]);
    assert_eq!(poll_default_options("\u{a0}a b\u{2003},\u{3000}"), vec!["a b", ""]);
}

#[test]
fn default_options_are_read_as_the_standard_library_reads_them() {
    for raw in ["", " ", "a", "a,b", " a , b ", ",,", "x ,\ty\n, z z ,", "\u{a0}\u{feff}x\u{85},"] {
        let wanted: Vec<String> = raw.split(",").map(|s| s.trim().to_string()).collect();
        assert_eq!(poll_default_options(raw), wanted);
    }
}

#[test]
fn poll_needs_an_option() {
    let said = "poll: no movies in queue (or error decoding individual ones)".to_string();
    let queue = Ok(Movies {
        movies: vec![Ok(movie("1", "Alien", 1979, "8.5")), Err(ApiError::Conflict)],
    });
    assert_eq!(
        movie_poll(&queue, vec!["Mir egal".to_string()], 10),
        Ok(vec!["Alien (1979) 8.5\u{2b50}".to_string(), "Mir egal".to_string()])
    );
    assert_eq!(
        movie_poll(&Ok(Movies { movies: vec![] }), vec!["Mir egal".to_string()], 10),
        Ok(vec!["Mir egal".to_string()])
    );
    assert_eq!(movie_poll(&Ok(Movies { movies: vec![] }), vec![], 10), Err(said.clone()));
    assert_eq!(movie_poll(&queue, vec![], 0), Err(said.clone()));
    assert_eq!(
        movie_poll(&Err(ApiError::Conflict), vec!["Mir egal".to_string()], 10),
        Err(said)
    );
}

#[test]
fn deleting_and_watching_differ_in_the_status() {
    assert_eq!(
        Command::Delete("Alien".to_string()).removal(),
        Some(("Alien".to_string(), MovieStatus::Deleted))
    );
    assert_eq!(
        Command::Watch("Alien".to_string()).removal(),
        Some(("Alien".to_string(), MovieStatus::Watched))
    );
    assert_eq!(
        Command::Delete("".to_string()).removal(),
        Some(("".to_string(), MovieStatus::Deleted))
    );
    for command in [
        Command::Help,
        Command::WerHatDieHandAnDerMaus,
        Command::Add("x".to_string()),
        Command::Queue,
        Command::Rate(CommandTypeMovieRating { movie_id: "x".to_string(), rating: 7 }),
        Command::Unrate("x".to_string()),
        Command::Get("x".to_string()),
        Command::Poll,
        Command::Noop,
        Command::WoStream("x".to_string()),
    ] {
        assert_eq!(command.removal(), None);
    }
}

#[test]
fn listing_the_queue_answers_in_messages() {
    let movies = Movies {
        movies: vec![
            Ok(movie("1", "Alien", 1979, "8.5")),
            Err(ApiError::Conflict),
            Ok(movie("2", "Heat", 1995, "8.3")),
        ],
    };
    assert_eq!(
        Command::queue(&movies, 4096),
        vec![MessageChunk {
            sequence_index: 0,
            text: movies.render()
        }]
    );
    assert_eq!(
        Command::queue(&movies, 30),
        vec![
            MessageChunk { sequence_index: 0, text: "Alien (1979) 8.5\u{2b50}".to_string() },
            MessageChunk {
                sequence_index: 1,
                text: "failed to retrieve movie: 0\u{2b50}".to_string()
            },
            MessageChunk { sequence_index: 2, text: "Heat (1995) 8.3\u{2b50}".to_string() },
        ]
    );
    assert_eq!(Command::queue(&Movies { movies: vec![] }, 30), vec![]);
}

#[test]
fn lookup_answers_with_its_text() {
    let response = StreamingproviderResolverResponse {
        results: vec![StreamingproviderResolverResponseItem {
            name: "Netflix".to_string(),
            movies: vec![SearchItem {
                title: "Alien".to_string(),
                id: None,
                _type: None,
                year: Some(1979),
            }],
        }],
    };
    assert_eq!(Command::wo_stream(&response), "Netflix:\n  Alien (1979)");
}
