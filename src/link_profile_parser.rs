//! Deciding, from a link's static configuration, which kind of link it
//! describes.
use vstd::prelude::*;

use crate::direct_link::DirectLinkParser;
use crate::link::{LinkConfig, same_text};
use crate::whiteboard_link::WhiteboardLinkParser;

verus! {

/// Name of the relay service that whiteboard links use.
pub const TWO_SIX_WHITEBOARD_SERVICE_NAME: &'static str = "twosix-whiteboard";

/// Whether a link is multicast when its profile does not say.
pub fn default_multicast() -> (r: bool)
    ensures
        !r,
{
    false
}

/// The fields common to every link profile.
pub struct ProfileHeader {
    pub multicast: bool,
    pub service_name: String,
}

/// Why a link configuration was not accepted.
#[derive(PartialEq, Eq, Structural, Clone, Copy, Debug)]
pub enum ParseError {
    /// The configuration or its profile is not valid JSON of the expected
    /// shape.
    JsonError,
    /// The link type is not recognized or supported.
    NotRecognized,
    /// The link is not used by the active persona.
    NotUtilized,
    /// A unicast link for the indirect channel, or a multicast link for the
    /// direct one.
    IncorrectChannelType,
}

/// A factory for links of the kind that a configuration describes.
pub enum LinkProfileParser {
    Direct(DirectLinkParser),
    Whiteboard(WhiteboardLinkParser),
}

/// Which kind of link a configuration gives, or why none: the active persona
/// must use the link; a unicast profile is a direct link, for the direct
/// channel only; a multicast profile of the whiteboard service is a
/// whiteboard link, for the indirect channel only; anything else is not
/// recognized.
pub open spec fn parse_result(
    utilized_by: Seq<Seq<char>>,
    header: Option<(bool, Seq<char>)>,
    persona: Seq<char>,
    direct: bool,
) -> Result<bool, ParseError> {
    if !utilized_by.contains(persona) {
        Err(ParseError::NotUtilized)
    } else {
        match header {
            None => Err(ParseError::JsonError),
            Some((multicast, service)) => if !multicast {
                if direct {
                    Ok(true)
                } else {
                    Err(ParseError::IncorrectChannelType)
                }
            } else if service == TWO_SIX_WHITEBOARD_SERVICE_NAME@ {
                if !direct {
                    Ok(false)
                } else {
                    Err(ParseError::IncorrectChannelType)
                }
            } else {
                Err(ParseError::NotRecognized)
            },
        }
    }
}

/// Chooses the link factory for a link configuration (see `parse_result`;
/// `Ok(true)` there is a direct link, `Ok(false)` a whiteboard link).
/// `header` is the configuration's profile text read as a profile header,
/// `None` when it could not be read; `direct` says whether the direct
/// channel's links are wanted.
pub fn parse(
    link_config: LinkConfig,
    header: Option<ProfileHeader>,
    active_persona: &String,
    direct: bool,
) -> (r: Result<LinkProfileParser, ParseError>)
    ensures
        ({
            let h = match header {
                Some(h) => Some((h.multicast, h.service_name@)),
                None => None,
            };
            match parse_result(crate::link::texts(link_config.utilized_by@), h, active_persona@, direct) {
                Ok(true) => r matches Ok(LinkProfileParser::Direct(p)) && p.config() == link_config,
                Ok(false) => r matches Ok(LinkProfileParser::Whiteboard(p)) && p.config() == link_config,
                Err(e) => r == Err::<LinkProfileParser, ParseError>(e),
            }
        }),
{
    let ghost ids = crate::link::texts(link_config.utilized_by@);
    let mut used = false;
    let mut i: usize = 0;
    while i < link_config.utilized_by.len()
        invariant
            i <= link_config.utilized_by@.len(),
            ids == crate::link::texts(link_config.utilized_by@),
            used == ids.subrange(0, i as int).contains(active_persona@),
        decreases link_config.utilized_by@.len() - i,
    {
        proof {
            let s0 = ids.subrange(0, i as int);
            let s1 = ids.subrange(0, i + 1);
            assert(s1 =~= s0.push(ids[i as int]));
            if s1.contains(active_persona@) {
                let k = choose|k: int| 0 <= k < s1.len() && s1[k] == active_persona@;
                if k < i {
                    assert(s0[k] == active_persona@);
                }
            }
            if s0.contains(active_persona@) {
                let k = choose|k: int| 0 <= k < s0.len() && s0[k] == active_persona@;
                assert(s1[k] == active_persona@);
            }
        }
        if same_text(&link_config.utilized_by[i], active_persona) {
            used = true;
        }
        proof {
            if ids[i as int] == active_persona@ {
                assert(ids.subrange(0, i + 1)[i as int] == active_persona@);
            }
        }
        i = i + 1;
    }
    proof {
        assert(ids.subrange(0, ids.len() as int) =~= ids);
    }
    if !used {
        return Err(ParseError::NotUtilized);
    }
    let header = match header {
        Some(h) => h,
        None => return Err(ParseError::JsonError),
    };
    if !header.multicast {
        if direct {
            return Ok(LinkProfileParser::Direct(DirectLinkParser::new(link_config)));
        }
        return Err(ParseError::IncorrectChannelType);
    } else if header.service_name.eq(&String::from_str(TWO_SIX_WHITEBOARD_SERVICE_NAME)) {
        if !direct {
            return Ok(LinkProfileParser::Whiteboard(WhiteboardLinkParser::new(link_config)));
        }
        return Err(ParseError::IncorrectChannelType);
    }
    Err(ParseError::NotRecognized)
}

} // verus!
