use timhatdiehandandermaus::address::Address;
use timhatdiehandandermaus::api::{ApiError, Method, Reply, Request, RequestBody};
use timhatdiehandandermaus::resolver::{
    ResolverApi, ResolverApiEndpoints, SearchItem, StreamingproviderResolverResponse,
    StreamingproviderResolverResponseItem,
};

fn item(title: &str, year: Option<u16>) -> SearchItem {
    SearchItem { title: title.to_string(), id: None, _type: Some("movie".to_string()), year }
}

#[test]
fn search_endpoint_path() {
    assert_eq!(ResolverApiEndpoints::Search.to_string(), "search");
}

#[test]
fn line_of_a_title() {
    assert_eq!(item("Alien", Some(1979)).to_string(), "Alien (1979)");
    assert_eq!(item("Alien", None).to_string(), "Alien");
    assert_eq!(item("", Some(0)).to_string(), " (0)");
}

#[test]
fn block_of_a_provider() {
    let provider = StreamingproviderResolverResponseItem {
        name: "Netflix".to_string(),
        movies: vec![item("Alien", Some(1979)), item("Aliens", None), item("Alien 3", Some(1992))],
    };
    assert_eq!(provider.to_string(), "Netflix:\n  Alien (1979)\n  Aliens\n  Alien 3 (1992)");
}

#[test]
fn block_of_a_provider_without_titles() {
    let provider =
        StreamingproviderResolverResponseItem { name: "Netflix".to_string(), movies: vec![] };
    assert_eq!(provider.to_string(), "Netflix:\n  ");
}

#[test]
fn text_of_an_answer() {
    let response = StreamingproviderResolverResponse {
        results: vec![
            StreamingproviderResolverResponseItem {
                name: "Netflix".to_string(),
                movies: vec![item("Alien", Some(1979))],
            },
            StreamingproviderResolverResponseItem {
                name: "Prime".to_string(),
                movies: vec![item("Alien", None), item("Aliens", Some(1986))],
            },
        ],
    };
    assert_eq!(
        response.to_string(),
        "Netflix:\n  Alien (1979)\n\nPrime:\n  Alien\n  Aliens (1986)"
    );
    assert_eq!(StreamingproviderResolverResponse { results: vec![] }.to_string(), "");
}

#[test]
fn request_that_looks_a_title_up() {
    let api = ResolverApi::new(Address::parse("http://streamingprovider-resolver:80/").unwrap());
    assert_eq!(
        api.search("Alien".to_string()),
        Ok(Request {
            method: Method::Post,
            url: Address::parse("http://streamingprovider-resolver/search").unwrap(),
            body: RequestBody::SearchTitle { title: "Alien".to_string(), year: None },
        })
    );
}

#[test]
fn lookup_at_a_base_without_hierarchy_is_a_transport_failure() {
    let api = ResolverApi::new(Address::parse("mailto:someone@example.com").unwrap());
    assert_eq!(
        api.search("Alien".to_string()),
        Err(ApiError::Transport("relative URL with a cannot-be-a-base base".to_string()))
    );
}

fn number(body: String) -> Result<u32, String> {
    body.parse::<u32>().map_err(|e| e.to_string())
}

#[test]
fn answer_to_a_lookup() {
    let reply = |status: u16, body: &str| Ok(Reply { status, body: body.to_string() });
    assert_eq!(ResolverApi::read_reply(reply(200, "7"), number), Ok(7));
    assert_eq!(
        ResolverApi::read_reply(reply(200, ""), number),
        Err(ApiError::Decode("cannot parse integer from empty string".to_string()))
    );
    assert_eq!(
        ResolverApi::read_reply(reply(409, "7"), number),
        Err(ApiError::Service { status: 409, message: "7".to_string() })
    );
    assert_eq!(
        ResolverApi::read_reply(reply(502, "bad gateway"), number),
        Err(ApiError::Service { status: 502, message: "bad gateway".to_string() })
    );
    assert_eq!(
        ResolverApi::read_reply(Err("timed out".to_string()), number),
        Err(ApiError::Transport("timed out".to_string()))
    );
}
