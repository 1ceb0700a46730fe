//! Run settings that the library reads: the domain blocklist, the scraper's
//! user agents and headers, and the retry settings.
use rand::Rng;
use vstd::prelude::*;

verus! {

broadcast use vstd::string::group_string_axioms;

/// Domains whose pages are never used as sources.
#[derive(Clone, Debug)]
pub struct Blocklist {
    pub domains: Vec<String>,
}

/// How pages are fetched.
#[derive(Clone, Debug)]
pub struct ScrapingConfig {
    pub max_depth: u32,
    pub max_pages_per_site: u32,
    pub timeout_seconds: u64,
    pub user_agents: Vec<String>,
    pub respect_robots_txt: bool,
}

/// How model calls are retried.
#[derive(Clone, Copy, Debug)]
pub struct AgentConfig {
    pub retry_attempts: u32,
    pub retry_delay_seconds: u64,
}

impl Blocklist {
    /// The social and aggregator sites left out by default.
    pub fn default_blocklist() -> (r: Blocklist)
        ensures
            r.domains.len() == 6,
            r.domains[0]@ == "facebook.com"@,
            r.domains[1]@ == "instagram.com"@,
            r.domains[2]@ == "linkedin.com"@,
            r.domains[3]@ == "pinterest.com"@,
            r.domains[4]@ == "reddit.com"@,
            r.domains[5]@ == "youtube.com"@,
    {
        let mut d: Vec<String> = Vec::new();
        d.push(String::from_str("facebook.com"));
        d.push(String::from_str("instagram.com"));
        d.push(String::from_str("linkedin.com"));
        d.push(String::from_str("pinterest.com"));
        d.push(String::from_str("reddit.com"));
        d.push(String::from_str("youtube.com"));
        Blocklist { domains: d }
    }
}

impl ScrapingConfig {
    /// Two levels deep, five pages a site, a 30-second timeout, three
    /// desktop browser user agents, and robots.txt respected.
    pub fn default_scraping() -> (r: ScrapingConfig)
        ensures
            r.max_depth == 2,
            r.max_pages_per_site == 5,
            r.timeout_seconds == 30,
            r.user_agents.len() == 3,
            r.user_agents[0]@ == "Mozilla/5.0 (Macintosh; Intel Mac OS X 10_15_7) AppleWebKit/537.36"@,
            r.user_agents[1]@ == "Mozilla/5.0 (Windows NT 10.0; Win64; x64) AppleWebKit/537.36"@,
            r.user_agents[2]@ == "Mozilla/5.0 (X11; Linux x86_64) AppleWebKit/537.36"@,
            r.respect_robots_txt,
    {
        let mut ua: Vec<String> = Vec::new();
        ua.push(
            String::from_str("Mozilla/5.0 (Macintosh; Intel Mac OS X 10_15_7) AppleWebKit/537.36"),
        );
        ua.push(String::from_str("Mozilla/5.0 (Windows NT 10.0; Win64; x64) AppleWebKit/537.36"));
        ua.push(String::from_str("Mozilla/5.0 (X11; Linux x86_64) AppleWebKit/537.36"));
        ScrapingConfig {
            max_depth: 2,
            max_pages_per_site: 5,
            timeout_seconds: 30,
            user_agents: ua,
            respect_robots_txt: true,
        }
    }

    /// Picks the user agent for one request: the one at `draw` (a random
    /// index the caller drew), the first where `draw` is out of range.
    pub fn user_agent_at(&self, draw: usize) -> (r: &String)
        requires
            self.user_agents.len() > 0,
        ensures
            draw < self.user_agents.len() ==> *r == self.user_agents[draw as int],
            draw >= self.user_agents.len() ==> *r == self.user_agents[0],
    {
        if draw < self.user_agents.len() {
            &self.user_agents[draw]
        } else {
            &self.user_agents[0]
        }
    }

    /// Picks a user agent at random from the pool.
    pub fn choose_user_agent(&self) -> (r: &String)
        requires
            self.user_agents.len() > 0,
        ensures
            exists|i: int| 0 <= i < self.user_agents.len() && *r == self.user_agents[i],
    {
        let draw = random_below(self.user_agents.len());
        self.user_agent_at(draw)
    }
}

/// Relies on `rand::rng` and `Rng::random_range`: a number below `n`, drawn
/// at random; the range must not be empty.
#[verifier::external_body]
fn random_below(n: usize) -> (r: usize)
    requires
        n > 0,
    ensures
        r < n,
{
    rand::rng().random_range(0..n)
}

/// The browser-like headers sent with every page request, after the user agent.
pub fn request_headers(user_agent: &String) -> (r: Vec<(String, String)>)
    ensures
        r.len() == 6,
        r[0].0@ == "User-Agent"@,
        r[0].1@ == user_agent@,
        r[1].0@ == "Accept"@,
        r[1].1@ == "text/html,application/xhtml+xml,application/xml;q=0.9,*/*;q=0.8"@,
        r[2].0@ == "Accept-Language"@,
        r[2].1@ == "en-US,en;q=0.5"@,
        r[3].0@ == "Accept-Encoding"@,
        r[3].1@ == "gzip, deflate"@,
        r[4].0@ == "DNT"@,
        r[4].1@ == "1"@,
        r[5].0@ == "Connection"@,
        r[5].1@ == "keep-alive"@,
{
    let mut h: Vec<(String, String)> = Vec::new();
    h.push((String::from_str("User-Agent"), user_agent.clone()));
    h.push(
        (
            String::from_str("Accept"),
            String::from_str("text/html,application/xhtml+xml,application/xml;q=0.9,*/*;q=0.8"),
        ),
    );
    h.push((String::from_str("Accept-Language"), String::from_str("en-US,en;q=0.5")));
    h.push((String::from_str("Accept-Encoding"), String::from_str("gzip, deflate")));
    h.push((String::from_str("DNT"), String::from_str("1")));
    h.push((String::from_str("Connection"), String::from_str("keep-alive")));
    h
}

impl AgentConfig {
    /// Three attempts, two seconds apart at first.
    pub fn default_agent() -> (r: AgentConfig)
        ensures
            r.retry_attempts == 3,
            r.retry_delay_seconds == 2,
    {
        AgentConfig { retry_attempts: 3, retry_delay_seconds: 2 }
    }
}

} // verus!
