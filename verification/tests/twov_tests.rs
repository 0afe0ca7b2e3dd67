// The timeline-entry structuring, held to recorded entry texts.

use mafa::twov::TweetOverview;
use mafa::error::MafaError;

#[test]
fn normal() {
        let strres = "twtl_v1\n1656697812266909696\nTwitter\n@Twitter\n·\nMay 12\nSay goodbye to prying eyes and hello to secure conversations. We're giving early access to Encrypted Direct Messages v1 to our verified users.\n\nWe're excited to get feedback, improve the experience, and roll it out to even more users. Learn more:\nhelp.twitter.com\nAbout Encrypted Direct Messages – DMs | Twitter Help\nTwitter seeks to be the most trusted platform on the internet, and encrypted Direct Messages are an important part of that.\n2,190\n3,551\n18K\n8.2M";

        let twov = TweetOverview::from_str(strres).expect("buggy");
        assert_eq!(twov.twid, "1656697812266909696");
        assert_eq!(twov.ctn, "Say goodbye to prying eyes and hello to secure conversations. We're giving early access to Encrypted Direct Messages v1 to our verified users.\n\nWe're excited to get feedback, improve the experience, and roll it out to even more users. Learn more:\nhelp.twitter.com\nAbout Encrypted Direct Messages – DMs | Twitter Help\nTwitter seeks to be the most trusted platform on the internet, and encrypted Direct Messages are an important part of that.");
        assert_eq!(twov.dispname, "Twitter");
        assert_eq!(twov.username, "@Twitter");
        assert_eq!(twov.post_tstamp, "May 12");
        assert_eq!(twov.retweeter, None);
        assert_eq!(twov.reply_to, None);
        assert!(twov.quote.is_none());
    }

#[test]
fn normal_tstamp() {
        let strres = "twtl_v1\n1656697812266909696\nTwitter\n@Twitter\n·\n35m\nSay goodbye to prying eyes and hello to secure conversations. We're giving early access to Encrypted Direct Messages v1 to our verified users.\n\nWe're excited to get feedback, improve the experience, and roll it out to even more users. Learn more:\nhelp.twitter.com\nAbout Encrypted Direct Messages – DMs | Twitter Help\nTwitter seeks to be the most trusted platform on the internet, and encrypted Direct Messages are an important part of that.\n2,190\n3,551\n18K\n8.2M";

        let twov = TweetOverview::from_str(strres).expect("buggy");
        assert_eq!(twov.twid, "1656697812266909696");
        assert_eq!(twov.ctn, "Say goodbye to prying eyes and hello to secure conversations. We're giving early access to Encrypted Direct Messages v1 to our verified users.\n\nWe're excited to get feedback, improve the experience, and roll it out to even more users. Learn more:\nhelp.twitter.com\nAbout Encrypted Direct Messages – DMs | Twitter Help\nTwitter seeks to be the most trusted platform on the internet, and encrypted Direct Messages are an important part of that.");
        assert_eq!(twov.dispname, "Twitter");
        assert_eq!(twov.username, "@Twitter");
        assert_eq!(twov.post_tstamp, "35m");
        assert_eq!(twov.retweeter, None);
        assert_eq!(twov.reply_to, None);
        assert!(twov.quote.is_none());
    }

#[test]
fn retweeter() {
        let strres = "twtl_v1\n1657073688632762368\nTwitter Retweeted\nSubscriptions\n@Subscriptions\n·\nMay 13\nYou asked (loudly), we listened.\n\nWe’ve reduced the signup flow for creators from 27 steps to just 4.\n\nIt’s never been easier to earn a living on Twitter. Tap on “Monetization” in settings to apply today.\n2,400\n2,004\n12.6K\n9.5M";

        let twov = TweetOverview::from_str(strres).expect("buggy");
        assert_eq!(twov.twid, "1657073688632762368");
        assert_eq!(twov.ctn, "You asked (loudly), we listened.\n\nWe’ve reduced the signup flow for creators from 27 steps to just 4.\n\nIt’s never been easier to earn a living on Twitter. Tap on “Monetization” in settings to apply today.");
        assert_eq!(twov.dispname, "Subscriptions");
        assert_eq!(twov.username, "@Subscriptions");
        assert_eq!(twov.post_tstamp, "May 13");
        assert_eq!(twov.retweeter, Some("Twitter".into()));
        assert_eq!(twov.reply_to, None);
        assert!(twov.quote.is_none());
    }

#[test]
fn reply_to() {
        let strres = "twtl_v1\n1601692772678762496\nTwitter\n@Twitter\n·\nDec 11, 2022\nReplying to \n@Twittee\nwe’ll begin replacing that “official” label with a gold checkmark for businesses, and later in the week a grey checkmark for government and multilateral accounts\n246\n1,211\n4,315";

        let twov = TweetOverview::from_str(strres).expect("buggy");
        assert_eq!(twov.twid, "1601692772678762496");
        assert_eq!(twov.ctn, "we’ll begin replacing that “official” label with a gold checkmark for businesses, and later in the week a grey checkmark for government and multilateral accounts");
        assert_eq!(twov.dispname, "Twitter");
        assert_eq!(twov.username, "@Twitter");
        assert_eq!(twov.post_tstamp, "Dec 11, 2022");
        assert_eq!(twov.retweeter, None);
        assert_eq!(twov.reply_to, Some("@Twittee".into()));
        assert!(twov.quote.is_none());
    }

#[test]
fn image_alt() {
        let strres = "twtl_v1\n1577730467436138524\nTwitter\n@Twitter\n·\nOct 6, 2022\nwhoa, it works\n\nnow everyone can mix GIFs, videos, and images in one Tweet, available on iOS and Android\nGIF\nALT\nALT\n2,911\n4,449\n21.7K";

        let twov = TweetOverview::from_str(strres).expect("buggy");
        assert_eq!(twov.twid, "1577730467436138524");
        assert_eq!(twov.ctn, "whoa, it works\n\nnow everyone can mix GIFs, videos, and images in one Tweet, available on iOS and Android");
        assert_eq!(twov.dispname, "Twitter");
        assert_eq!(twov.username, "@Twitter");
        assert_eq!(twov.post_tstamp, "Oct 6, 2022");
        assert_eq!(twov.retweeter, None);
        assert_eq!(twov.reply_to, None);
        assert!(twov.quote.is_none());
    }

#[test]
fn spaces() {
        let strres = "twtl_v1\n1645992677727666176\nTwitter\n@Twitter\n·\nApr 12\nTwitter\nHost\nBBC Interview with Elon\n2.6M tuned in\n·\nApr 12\n·\n1:39:55\nPlay recording\n18.7K\n4,447\n10.8K\n4.9M";

        if let Err(MafaError::TweetNotRecoginized(c)) = TweetOverview::from_str(strres) {
            assert_eq!(c, 7);
        } else {
            assert!(false);
        }
    }

#[test]
fn quote_1() {
        let strres = "twtl_v1\n1668829554448777216\nElon Musk\n@elonmusk\n·\nJun 14\nWhy ESG is the devil …\nQuote Tweet\nAaron Sibarium\n@aaronsibarium\n·\nJun 14\nNEW: From S&P Global to the London Stock Exchange, tobacco companies are crushing Tesla in the ESG ratings. How could cigarettes, which kill over 8 million a year, be deemed a more ethical investment than electric cars? \n\nOne answer: Tobacco’s gone woke.https://freebeacon.com/latest-news/how-tobacco-companies-are-crushing-esg-ratings/…\n8,898\n26K\n144.7K\n36.2M";

        let twov = TweetOverview::from_str(strres).expect("buggy");
        assert_eq!(twov.twid, "1668829554448777216");
        assert_eq!(twov.ctn, "Why ESG is the devil …");
        assert_eq!(twov.dispname, "Elon Musk");
        assert_eq!(twov.username, "@elonmusk");
        assert_eq!(twov.post_tstamp, "Jun 14");
        assert_eq!(twov.retweeter, None);
        assert_eq!(twov.reply_to, None);
        assert!(twov.quote.is_some());
        assert_eq!(twov.quote.as_ref().unwrap().dispname, "Aaron Sibarium");
        assert_eq!(twov.quote.as_ref().unwrap().username, "@aaronsibarium");
        assert_eq!(twov.quote.as_ref().unwrap().tstamp, "Jun 14");
        assert_eq!(twov.quote.as_ref().unwrap().ctn, "NEW: From S&P Global to the London Stock Exchange, tobacco companies are crushing Tesla in the ESG ratings. How could cigarettes, which kill over 8 million a year, be deemed a more ethical investment than electric cars? \n\nOne answer: Tobacco’s gone woke.https://freebeacon.com/latest-news/how-tobacco-companies-are-crushing-esg-ratings/…");
    }

#[test]
fn quote_2() {
        let strres = "twtl_v1\n1668675404939272196\nElon Musk Retweeted\nTesla\n@Tesla\n·\nJun 14\nWithin 15 mins, you can recover up to 200 miles/275 km\nQuote Tweet\nArash Malek\n@MinimalDuck\n·\nJun 9\nWhat a 15min charge looks like. @Tesla @elonmusk @TeslaCharging\n0:01 / 0:31\n2,130\n3,129\n20K\n9.1M";

        let twov = TweetOverview::from_str(strres).expect("buggy");
        assert_eq!(twov.twid, "1668675404939272196");
        assert_eq!(
            twov.ctn,
            "Within 15 mins, you can recover up to 200 miles/275 km"
        );
        assert_eq!(twov.dispname, "Tesla");
        assert_eq!(twov.username, "@Tesla");
        assert_eq!(twov.post_tstamp, "Jun 14");
        assert_eq!(twov.retweeter, Some("Elon Musk".into()));
        assert_eq!(twov.reply_to, None);
        assert!(twov.quote.is_some());
        assert_eq!(twov.quote.as_ref().unwrap().dispname, "Arash Malek");
        assert_eq!(twov.quote.as_ref().unwrap().username, "@MinimalDuck");
        assert_eq!(twov.quote.as_ref().unwrap().tstamp, "Jun 9");
        assert_eq!(
            twov.quote.as_ref().unwrap().ctn,
            "What a 15min charge looks like. @Tesla @elonmusk @TeslaCharging\n0:01 / 0:31"
        );
    }

